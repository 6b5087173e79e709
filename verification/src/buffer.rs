//! The override buffer: channel values that the operator set by hand. It
//! holds at most one value for a channel.

use crate::dmx_types::DMXBufferValue;
use crate::search::{
    first_match, is_first, lemma_first_match_is, lemma_first_match_none, lemma_first_match_some,
    none_match,
};
use vstd::prelude::*;

verus! {

/// The values for the channel `chan`.
pub open spec fn on_channel(chan: usize) -> spec_fn(DMXBufferValue) -> bool {
    |v: DMXBufferValue| v.chan == chan
}

/// The buffer after `chan` was set to `value`: the first value for that
/// channel is replaced, or, where there is none, the new one is added at
/// the end.
pub open spec fn buffer_set(buffer: Seq<DMXBufferValue>, chan: usize, value: u8) -> Seq<
    DMXBufferValue,
> {
    match first_match(buffer, on_channel(chan)) {
        Some(i) => buffer.update(i, DMXBufferValue { chan, dmx: value }),
        None => buffer.push(DMXBufferValue { chan, dmx: value }),
    }
}

/// No two values of the buffer are for the same channel.
pub open spec fn distinct_channels(buffer: Seq<DMXBufferValue>) -> bool {
    forall|i: int, j: int|
        0 <= i < buffer.len() && 0 <= j < buffer.len() && i != j ==> (#[trigger] buffer[i]).chan
            != (#[trigger] buffer[j]).chan
}

/// How many values the buffer holds for `chan`.
pub open spec fn count_on(buffer: Seq<DMXBufferValue>, chan: usize) -> nat
    decreases buffer.len(),
{
    if buffer.len() == 0 {
        0
    } else {
        count_on(buffer.drop_last(), chan) + if buffer.last().chan == chan {
            1nat
        } else {
            0nat
        }
    }
}

/// Sets `chan` to `value`.
pub fn set_buffer_value(buffer: &mut Vec<DMXBufferValue>, chan: usize, value: u8)
    ensures
        final(buffer)@ == buffer_set(old(buffer)@, chan, value),
{
    let mut i: usize = 0;
    while i < buffer.len()
        invariant
            i <= buffer@.len(),
            buffer@ == old(buffer)@,
            forall|j: int| 0 <= j < i ==> !on_channel(chan)(#[trigger] buffer@[j]),
        decreases buffer@.len() - i,
    {
        if buffer[i].chan == chan {
            proof {
                assert(is_first(buffer@, on_channel(chan), i as int));
                lemma_first_match_some(buffer@, on_channel(chan), i as int);
            }
            buffer[i].dmx = value;
            assert(buffer@ =~= buffer_set(old(buffer)@, chan, value));
            return ;
        }
        i = i + 1;
    }
    proof {
        lemma_first_match_none(buffer@, on_channel(chan));
    }
    buffer.push(DMXBufferValue::new(chan, value));
}

/// A buffer without a value for `chan` counts none for it.
pub proof fn lemma_count_none(buffer: Seq<DMXBufferValue>, chan: usize)
    requires
        none_match(buffer, on_channel(chan)),
    ensures
        count_on(buffer, chan) == 0,
    decreases buffer.len(),
{
    if buffer.len() > 0 {
        assert(!on_channel(chan)(buffer[buffer.len() - 1]));
        assert forall|j: int| 0 <= j < buffer.drop_last().len() implies !on_channel(chan)(
            #[trigger] buffer.drop_last()[j],
        ) by {
            assert(!on_channel(chan)(buffer[j]));
        }
        lemma_count_none(buffer.drop_last(), chan);
    }
}

/// A buffer of distinct channels with a value for `chan` counts one for
/// it.
pub proof fn lemma_count_one(buffer: Seq<DMXBufferValue>, chan: usize, at: int)
    requires
        distinct_channels(buffer),
        0 <= at < buffer.len(),
        buffer[at].chan == chan,
    ensures
        count_on(buffer, chan) == 1,
    decreases buffer.len(),
{
    let rest = buffer.drop_last();
    if at == buffer.len() - 1 {
        assert forall|j: int| 0 <= j < rest.len() implies !on_channel(chan)(#[trigger] rest[j]) by {
            assert(buffer[j].chan != buffer[at].chan);
        }
        lemma_count_none(rest, chan);
    } else {
        assert(buffer[buffer.len() - 1].chan != buffer[at].chan);
        assert forall|i: int, j: int|
            0 <= i < rest.len() && 0 <= j < rest.len() && i != j implies (#[trigger] rest[i]).chan
            != (#[trigger] rest[j]).chan by {
            assert(buffer[i].chan != buffer[j].chan);
        }
        lemma_count_one(rest, chan, at);
    }
}

/// Setting a channel keeps the channels of the buffer distinct and leaves
/// exactly one value for the channel set, the value given. The values for
/// other channels stay as they were.
pub proof fn lemma_set_keeps_one(buffer: Seq<DMXBufferValue>, chan: usize, value: u8)
    requires
        distinct_channels(buffer),
    ensures
        distinct_channels(buffer_set(buffer, chan, value)),
        count_on(buffer_set(buffer, chan, value), chan) == 1,
        exists|i: int|
            0 <= i < buffer_set(buffer, chan, value).len() && #[trigger] buffer_set(
                buffer,
                chan,
                value,
            )[i] == (DMXBufferValue { chan, dmx: value }),
        forall|i: int|
            0 <= i < buffer.len() && (#[trigger] buffer[i]).chan != chan ==> buffer_set(
                buffer,
                chan,
                value,
            )[i] == buffer[i],
{
    lemma_first_match_is(buffer, on_channel(chan));
    let after = buffer_set(buffer, chan, value);
    match first_match(buffer, on_channel(chan)) {
        Some(k) => {
            assert forall|i: int, j: int|
                0 <= i < after.len() && 0 <= j < after.len() && i != j implies (
            #[trigger] after[i]).chan != (#[trigger] after[j]).chan by {
                assert(buffer[i].chan != buffer[j].chan);
            }
            assert(after[k] == (DMXBufferValue { chan, dmx: value }));
            lemma_count_one(after, chan, k);
        },
        None => {
            assert forall|i: int, j: int|
                0 <= i < after.len() && 0 <= j < after.len() && i != j implies (
            #[trigger] after[i]).chan != (#[trigger] after[j]).chan by {
                if i < buffer.len() && j < buffer.len() {
                    assert(buffer[i].chan != buffer[j].chan);
                } else if i < buffer.len() {
                    assert(!on_channel(chan)(buffer[i]));
                } else {
                    assert(!on_channel(chan)(buffer[j]));
                }
            }
            assert(after[buffer.len() as int] == (DMXBufferValue { chan, dmx: value }));
            lemma_count_one(after, chan, buffer.len() as int);
        },
    }
}

/// Setting a channel twice leaves what setting it to the second value
/// alone would have left.
pub proof fn lemma_set_twice(buffer: Seq<DMXBufferValue>, chan: usize, first: u8, second: u8)
    requires
        distinct_channels(buffer),
    ensures
        buffer_set(buffer_set(buffer, chan, first), chan, second) == buffer_set(
            buffer,
            chan,
            second,
        ),
{
    lemma_first_match_is(buffer, on_channel(chan));
    let once = buffer_set(buffer, chan, first);
    match first_match(buffer, on_channel(chan)) {
        Some(k) => {
            assert(is_first(once, on_channel(chan), k)) by {
                assert forall|j: int| 0 <= j < k implies !on_channel(chan)(#[trigger] once[j]) by {
                    assert(!on_channel(chan)(buffer[j]));
                }
            }
            lemma_first_match_some(once, on_channel(chan), k);
            assert(buffer_set(once, chan, second) =~= buffer_set(buffer, chan, second));
        },
        None => {
            let k = buffer.len() as int;
            assert(is_first(once, on_channel(chan), k)) by {
                assert forall|j: int| 0 <= j < k implies !on_channel(chan)(#[trigger] once[j]) by {
                    assert(!on_channel(chan)(buffer[j]));
                }
            }
            lemma_first_match_some(once, on_channel(chan), k);
            assert(buffer_set(once, chan, second) =~= buffer_set(buffer, chan, second));
        },
    }
}

} // verus!
