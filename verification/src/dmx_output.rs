//! The mixing pipeline: one output frame from the executors, the override
//! buffer and the master dimmer.
//!
//! The frame starts dark. Each executor that puts out a level above zero
//! and has a current cue writes the levels of that cue, scaled by its
//! output level, over what is there, so of two executors the later one
//! wins. The override buffer is written over the result, and the master
//! dimmer scales every channel at the end.

use crate::dmx_types::{DMXBufferValue, DMX_CHANNELS};
use crate::executor::{dark_frame, new_frame, now_millis, Executor};
use crate::level::{lemma_scaled_bounds, scale, scaled, LEVEL_FULL};
use crate::ui::ConsoleState;
use vstd::prelude::*;

verus! {

/// Whether an executor takes part in the mix: it puts out a level above
/// zero and its current place holds a cue.
pub open spec fn contributes(e: Executor) -> bool {
    e.current_output_level > 0 && e.active_levels() is Some
}

/// `frame` with the levels of the current cue of `e` written over it at
/// the executor's output level. A cue with fewer levels than the frame
/// has channels leaves the rest as it is.
pub open spec fn with_executor(frame: Seq<u8>, e: Executor) -> Seq<u8> {
    if contributes(e) {
        Seq::new(
            frame.len(),
            |i: int|
                if i < e.active_levels()->0.len() {
                    scaled(e.active_levels()->0[i], e.current_output_level)
                } else {
                    frame[i]
                },
        )
    } else {
        frame
    }
}

/// `frame` with the first `count` executors written over it in order.
pub open spec fn with_executors(frame: Seq<u8>, executors: Seq<Executor>, count: int) -> Seq<u8>
    decreases count,
{
    if count <= 0 {
        frame
    } else {
        with_executor(with_executors(frame, executors, count - 1), executors[count - 1])
    }
}

/// The place in a frame that an override value is written to: its channel
/// number less one, and the first place for the number 0.
pub open spec fn override_place(v: DMXBufferValue) -> int {
    if v.chan == 0 {
        0
    } else {
        v.chan - 1
    }
}

/// `frame` with the first `count` override values written over it in
/// order; a value whose place lies outside the frame is left out.
pub open spec fn with_overrides(frame: Seq<u8>, buffer: Seq<DMXBufferValue>, count: int) -> Seq<u8>
    decreases count,
{
    if count <= 0 {
        frame
    } else {
        let before = with_overrides(frame, buffer, count - 1);
        let v = buffer[count - 1];
        if override_place(v) < before.len() {
            before.update(override_place(v), v.dmx)
        } else {
            before
        }
    }
}

/// `frame` with every channel scaled by `master`.
pub open spec fn dimmed(frame: Seq<u8>, master: u32) -> Seq<u8> {
    Seq::new(frame.len(), |i: int| scaled(frame[i], master))
}

/// The frame before the master dimmer: executors, then overrides.
pub open spec fn layered(executors: Seq<Executor>, buffer: Seq<DMXBufferValue>) -> Seq<u8> {
    with_overrides(
        with_executors(dark_frame(), executors, executors.len() as int),
        buffer,
        buffer.len() as int,
    )
}

/// The output frame.
pub open spec fn mixed(executors: Seq<Executor>, buffer: Seq<DMXBufferValue>, master: u32) -> Seq<u8> {
    dimmed(layered(executors, buffer), master)
}

fn write_executor(frame: &mut Vec<u8>, e: &Executor)
    ensures
        final(frame)@ == with_executor(old(frame)@, *e),
{
    if e.current_output_level > 0 && e.current_cue_index < e.cue_list.len() {
        let levels = &e.cue_list[e.current_cue_index].levels;
        let n = if levels.len() < frame.len() {
            levels.len()
        } else {
            frame.len()
        };
        let mut i: usize = 0;
        while i < n
            invariant
                i <= n,
                n <= frame@.len(),
                n <= levels@.len(),
                n == levels@.len() || n == frame@.len(),
                frame@.len() == old(frame)@.len(),
                forall|j: int|
                    0 <= j < frame@.len() ==> #[trigger] frame@[j] == if j < i {
                        scaled(levels@[j], e.current_output_level)
                    } else {
                        old(frame)@[j]
                    },
            decreases n - i,
        {
            frame[i] = scale(levels[i], e.current_output_level);
            i = i + 1;
        }
        assert(frame@ =~= with_executor(old(frame)@, *e));
    }
}

/// Mixes a frame.
pub fn mix_frame(executors: &Vec<Executor>, buffer: &Vec<DMXBufferValue>, master: u32) -> (frame:
    Vec<u8>)
    ensures
        frame@ == mixed(executors@, buffer@, master),
        frame@.len() == DMX_CHANNELS,
{
    let mut frame = new_frame();
    let mut k: usize = 0;
    while k < executors.len()
        invariant
            k <= executors@.len(),
            frame@.len() == DMX_CHANNELS,
            frame@ == with_executors(dark_frame(), executors@, k as int),
        decreases executors@.len() - k,
    {
        write_executor(&mut frame, &executors[k]);
        k = k + 1;
    }
    let ghost lit = frame@;
    let mut k: usize = 0;
    while k < buffer.len()
        invariant
            k <= buffer@.len(),
            frame@.len() == DMX_CHANNELS,
            frame@ == with_overrides(lit, buffer@, k as int),
        decreases buffer@.len() - k,
    {
        let place = buffer[k].chan.saturating_sub(1);
        if place < frame.len() {
            frame[place] = buffer[k].dmx;
        }
        k = k + 1;
    }
    let ghost full = frame@;
    let mut i: usize = 0;
    while i < frame.len()
        invariant
            i <= frame@.len(),
            frame@.len() == DMX_CHANNELS,
            full.len() == DMX_CHANNELS,
            forall|j: int|
                0 <= j < frame@.len() ==> #[trigger] frame@[j] == if j < i {
                    scaled(full[j], master)
                } else {
                    full[j]
                },
        decreases frame@.len() - i,
    {
        frame[i] = scale(frame[i], master);
        i = i + 1;
    }
    assert(frame@ =~= dimmed(full, master));
    frame
}

fn same_frame(a: &Vec<u8>, b: &Vec<u8>) -> (r: bool)
    ensures
        r == (a@ == b@),
{
    if a.len() != b.len() {
        return false;
    }
    let mut i: usize = 0;
    while i < a.len()
        invariant
            i <= a@.len(),
            a@.len() == b@.len(),
            forall|j: int| 0 <= j < i ==> a@[j] == b@[j],
        decreases a@.len() - i,
    {
        if a[i] != b[i] {
            return false;
        }
        i = i + 1;
    }
    assert(a@ =~= b@);
    true
}

/// `post` are the executors `pre`, each with its fade advanced to `now`.
pub open spec fn all_faded(pre: Seq<Executor>, post: Seq<Executor>, now: u64) -> bool {
    &&& post.len() == pre.len()
    &&& forall|i: int| 0 <= i < pre.len() ==> #[trigger] post[i] == pre[i].after_fade(now)
}

/// `post` is `pre` after one tick at the instant `now`: every fade is
/// advanced, the frame is mixed from the result, and `channels` holds it.
pub open spec fn ticked(pre: ConsoleState, post: ConsoleState, now: u64) -> bool {
    &&& all_faded(pre.executors@, post.executors@, now)
    &&& post.channels@ == mixed(post.executors@, pre.buffer@, pre.master_dimmer)
    &&& post == (ConsoleState { executors: post.executors, channels: post.channels, ..pre })
}

/// One tick at the instant `now`. Returns whether the frame differs from
/// the one before, in which case the transport is due the new frame.
pub fn mix_executor_outputs_at(state: &mut ConsoleState, now: u64) -> (changed: bool)
    ensures
        ticked(*old(state), *final(state), now),
        changed == (final(state).channels@ != old(state).channels@),
{
    let mut k: usize = 0;
    while k < state.executors.len()
        invariant
            k <= state.executors@.len(),
            state.executors@.len() == old(state).executors@.len(),
            forall|i: int|
                0 <= i < state.executors@.len() ==> #[trigger] state.executors@[i] == if i < k {
                    old(state).executors@[i].after_fade(now)
                } else {
                    old(state).executors@[i]
                },
            *state == (ConsoleState { executors: state.executors, ..*old(state) }),
        decreases state.executors@.len() - k,
    {
        state.executors[k].update_fade_at(now);
        k = k + 1;
    }
    let frame = mix_frame(&state.executors, &state.buffer, state.master_dimmer);
    if same_frame(&frame, &state.channels) {
        false
    } else {
        state.channels = frame;
        true
    }
}

/// One tick at the present instant, which is returned with the answer of
/// `mix_executor_outputs_at`.
pub fn mix_executor_outputs(state: &mut ConsoleState) -> (r: (bool, u64))
    ensures
        ticked(*old(state), *final(state), r.1),
        r.0 == (final(state).channels@ != old(state).channels@),
{
    let now = now_millis();
    let changed = mix_executor_outputs_at(state, now);
    (changed, now)
}

/// Records what the transport said when it was asked for its health:
/// no failure means connected; a failure means disconnected, with its
/// text kept.
pub fn record_link_health(state: &mut ConsoleState, failure: Option<String>)
    ensures
        match failure {
            None => *final(state) == (ConsoleState { dmx_connected: true, ..*old(state) }),
            Some(text) => *final(state) == (ConsoleState {
                dmx_connected: false,
                dmx_serial_error: text,
                ..*old(state)
            }),
        },
{
    match failure {
        None => {
            state.dmx_connected = true;
        },
        Some(text) => {
            state.dmx_connected = false;
            state.dmx_serial_error = text;
        },
    }
}

/// Writing executors and overrides keeps the length of a frame.
pub proof fn lemma_layers_keep_length(
    frame: Seq<u8>,
    executors: Seq<Executor>,
    buffer: Seq<DMXBufferValue>,
    count: int,
)
    ensures
        with_executors(frame, executors, count).len() == frame.len(),
        with_overrides(frame, buffer, count).len() == frame.len(),
    decreases count,
{
    if count > 0 {
        lemma_layers_keep_length(frame, executors, buffer, count - 1);
    }
}

/// An output frame has 512 channels, each the channel of the layered
/// frame under the master dimmer; with the master at or below full no
/// channel goes out above what the layers hold, with the master at full
/// each goes out as it is, and with the master at 0 the frame is dark.
pub proof fn lemma_mixed_frame(executors: Seq<Executor>, buffer: Seq<DMXBufferValue>, master: u32)
    ensures
        mixed(executors, buffer, master).len() == DMX_CHANNELS,
        layered(executors, buffer).len() == DMX_CHANNELS,
        forall|i: int|
            0 <= i < DMX_CHANNELS ==> {
                &&& 0 <= #[trigger] mixed(executors, buffer, master)[i] <= 255
                &&& mixed(executors, buffer, master)[i] == scaled(
                    layered(executors, buffer)[i],
                    master,
                )
                &&& master <= LEVEL_FULL ==> mixed(executors, buffer, master)[i] <= layered(
                    executors,
                    buffer,
                )[i]
                &&& master == LEVEL_FULL ==> mixed(executors, buffer, master)[i] == layered(
                    executors,
                    buffer,
                )[i]
                &&& master == 0 ==> mixed(executors, buffer, master)[i] == 0
            },
{
    let lit = with_executors(dark_frame(), executors, executors.len() as int);
    lemma_layers_keep_length(dark_frame(), executors, buffer, executors.len() as int);
    lemma_layers_keep_length(lit, executors, buffer, buffer.len() as int);
    assert forall|i: int| 0 <= i < DMX_CHANNELS implies {
        &&& 0 <= #[trigger] mixed(executors, buffer, master)[i] <= 255
        &&& mixed(executors, buffer, master)[i] == scaled(layered(executors, buffer)[i], master)
        &&& master <= LEVEL_FULL ==> mixed(executors, buffer, master)[i] <= layered(
            executors,
            buffer,
        )[i]
        &&& master == LEVEL_FULL ==> mixed(executors, buffer, master)[i] == layered(
            executors,
            buffer,
        )[i]
        &&& master == 0 ==> mixed(executors, buffer, master)[i] == 0
    } by {
        lemma_scaled_bounds(layered(executors, buffer)[i], master);
    }
}

/// An override value that no later one writes over decides its channel,
/// whatever lies below.
pub proof fn lemma_override_decides(
    frame: Seq<u8>,
    buffer: Seq<DMXBufferValue>,
    count: int,
    k: int,
)
    requires
        0 <= k < count <= buffer.len(),
        override_place(buffer[k]) < frame.len(),
        forall|j: int|
            k < j < count ==> override_place(#[trigger] buffer[j]) != override_place(buffer[k]),
    ensures
        with_overrides(frame, buffer, count)[override_place(buffer[k])] == buffer[k].dmx,
    decreases count,
{
    lemma_layers_keep_length(frame, Seq::empty(), buffer, count - 1);
    if k < count - 1 {
        lemma_override_decides(frame, buffer, count - 1, k);
        assert(override_place(buffer[count - 1]) != override_place(buffer[k]));
    }
}

/// Overrides win: a value of the buffer that no later one writes over
/// goes out as itself under the master dimmer, whatever the executors
/// put out on its channel.
pub proof fn lemma_override_wins(
    executors: Seq<Executor>,
    buffer: Seq<DMXBufferValue>,
    master: u32,
    k: int,
)
    requires
        0 <= k < buffer.len(),
        override_place(buffer[k]) < DMX_CHANNELS,
        forall|j: int|
            k < j < buffer.len() ==> override_place(#[trigger] buffer[j]) != override_place(
                buffer[k],
            ),
    ensures
        mixed(executors, buffer, master)[override_place(buffer[k])] == scaled(
            buffer[k].dmx,
            master,
        ),
{
    let lit = with_executors(dark_frame(), executors, executors.len() as int);
    lemma_layers_keep_length(dark_frame(), executors, buffer, executors.len() as int);
    lemma_layers_keep_length(lit, executors, buffer, buffer.len() as int);
    lemma_override_decides(lit, buffer, buffer.len() as int, k);
}

/// After a tick every channel that goes out is the channel of the
/// layered frame under the master dimmer, and an override value that no
/// later one writes over goes out as itself under the master dimmer.
pub proof fn lemma_tick_frame(pre: ConsoleState, post: ConsoleState, now: u64, k: int)
    requires
        ticked(pre, post, now),
    ensures
        post.channels@.len() == DMX_CHANNELS,
        forall|i: int|
            0 <= i < DMX_CHANNELS ==> #[trigger] post.channels@[i] == scaled(
                layered(post.executors@, pre.buffer@)[i],
                pre.master_dimmer,
            ),
        0 <= k < pre.buffer@.len() && override_place(pre.buffer@[k]) < DMX_CHANNELS && (forall|
            j: int,
        |
            k < j < pre.buffer@.len() ==> override_place(#[trigger] pre.buffer@[j])
                != override_place(pre.buffer@[k])) ==> post.channels@[override_place(
            pre.buffer@[k],
        )] == scaled(pre.buffer@[k].dmx, pre.master_dimmer),
{
    lemma_mixed_frame(post.executors@, pre.buffer@, pre.master_dimmer);
    if 0 <= k < pre.buffer@.len() && override_place(pre.buffer@[k]) < DMX_CHANNELS && (forall|
        j: int,
    |
        k < j < pre.buffer@.len() ==> override_place(#[trigger] pre.buffer@[j]) != override_place(
            pre.buffer@[k],
        )) {
        lemma_override_wins(post.executors@, pre.buffer@, pre.master_dimmer, k);
    }
}

/// The last of the contributing executors decides the channels that no
/// override is written to: of two executors in the mix, the later wins.
pub proof fn lemma_last_executor_wins(frame: Seq<u8>, executors: Seq<Executor>, i: int)
    requires
        executors.len() > 0,
        contributes(executors.last()),
        0 <= i < frame.len(),
        i < executors.last().active_levels()->0.len(),
    ensures
        with_executors(frame, executors, executors.len() as int)[i] == scaled(
            executors.last().active_levels()->0[i],
            executors.last().current_output_level,
        ),
{
    lemma_layers_keep_length(frame, executors, Seq::empty(), executors.len() - 1);
}

/// The highest level that the current cues of the first `count` executors
/// hold for the channel at place `i`; 0 where none holds one.
pub open spec fn highest_cue_level(executors: Seq<Executor>, count: int, i: int) -> u8
    decreases count,
{
    if count <= 0 {
        0u8
    } else {
        let before = highest_cue_level(executors, count - 1, i);
        match executors[count - 1].active_levels() {
            Some(levels) => if 0 <= i < levels.len() && levels[i] > before {
                levels[i]
            } else {
                before
            },
            None => before,
        }
    }
}

/// Executors that put out no more than full write no channel above the
/// highest level that their current cues hold for it.
pub proof fn lemma_executors_within_cues(executors: Seq<Executor>, count: int, i: int)
    requires
        0 <= count <= executors.len(),
        0 <= i < DMX_CHANNELS,
        forall|k: int|
            0 <= k < count ==> (#[trigger] executors[k]).current_output_level <= LEVEL_FULL,
    ensures
        with_executors(dark_frame(), executors, count)[i] <= highest_cue_level(executors, count, i),
    decreases count,
{
    lemma_layers_keep_length(dark_frame(), executors, Seq::empty(), count);
    if count > 0 {
        lemma_layers_keep_length(dark_frame(), executors, Seq::empty(), count - 1);
        lemma_executors_within_cues(executors, count - 1, i);
        let e = executors[count - 1];
        assert(e.current_output_level <= LEVEL_FULL);
        if contributes(e) && i < e.active_levels()->0.len() {
            lemma_scaled_bounds(e.active_levels()->0[i], e.current_output_level);
        }
    }
}

/// Without overrides, and with the master dimmer and every output level
/// at full or below, no channel of the frame is above the highest level
/// that the executors' current cues hold for it.
pub proof fn lemma_mixed_within_cues(executors: Seq<Executor>, master: u32, i: int)
    requires
        0 <= i < DMX_CHANNELS,
        master <= LEVEL_FULL,
        forall|k: int|
            0 <= k < executors.len() ==> (#[trigger] executors[k]).current_output_level
                <= LEVEL_FULL,
    ensures
        mixed(executors, Seq::empty(), master)[i] <= highest_cue_level(
            executors,
            executors.len() as int,
            i,
        ),
{
    lemma_mixed_frame(executors, Seq::empty(), master);
    lemma_executors_within_cues(executors, executors.len() as int, i);
    lemma_scaled_bounds(layered(executors, Seq::empty())[i], master);
}

/// After a tick without overrides, with the master dimmer and every fader
/// at full or below, no channel goes out above the highest level that the
/// executors' current cues hold for it.
pub proof fn lemma_tick_within_cues(pre: ConsoleState, post: ConsoleState, now: u64, i: int)
    requires
        ticked(pre, post, now),
        0 <= i < DMX_CHANNELS,
        pre.buffer@.len() == 0,
        pre.master_dimmer <= LEVEL_FULL,
        forall|k: int|
            0 <= k < pre.executors@.len() ==> (#[trigger] pre.executors@[k]).fader_level
                <= LEVEL_FULL,
    ensures
        post.channels@[i] <= highest_cue_level(pre.executors@, pre.executors@.len() as int, i),
{
    assert forall|k: int| 0 <= k < post.executors@.len() implies (
    #[trigger] post.executors@[k]).current_output_level <= LEVEL_FULL by {
        pre.executors@[k].lemma_after_fade(now);
        assert(pre.executors@[k].fader_level <= LEVEL_FULL);
    }
    assert(pre.buffer@ =~= Seq::<DMXBufferValue>::empty());
    lemma_mixed_within_cues(post.executors@, pre.master_dimmer, i);
    lemma_same_cues(pre.executors@, post.executors@, now, pre.executors@.len() as int, i);
}

/// Advancing the fades leaves the highest level of the current cues as
/// it is.
proof fn lemma_same_cues(pre: Seq<Executor>, post: Seq<Executor>, now: u64, count: int, i: int)
    requires
        all_faded(pre, post, now),
        0 <= count <= pre.len(),
    ensures
        highest_cue_level(post, count, i) == highest_cue_level(pre, count, i),
    decreases count,
{
    if count > 0 {
        lemma_same_cues(pre, post, now, count - 1, i);
        pre[count - 1].lemma_after_fade(now);
        assert(post[count - 1] == pre[count - 1].after_fade(now));
    }
}

} // verus!
