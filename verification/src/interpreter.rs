//! Carrying out commands on the console's state.
//!
//! A command that was carried out is added to the history. One that names
//! a fixture or an executor that is not there leaves a message in
//! `command_error` and changes nothing else.

use crate::buffer::{buffer_set, count_on, distinct_channels, lemma_set_keeps_one, set_buffer_value};
use crate::console::{spec_parse, ConsoleCommand, Direction};
use crate::cue_list::{
    can_shift, can_shift_without, exchanged, find_cue, has_id, insert_place,
    lemma_arrival_renumbers, lemma_nudge_wraps, place_above, place_after, place_below, raised,
    shift_fits, shift_ids, swap_cues, swapped, taken_in,
};
use crate::dmx_types::{ChannelType, Color, DMXBufferValue, Fixture};
use crate::templates::template_with;
use crate::executor::{Cue, Executor};
use crate::level::LEVEL_FULL;
use crate::search::{
    first_match, is_first, lemma_first_match_is, lemma_first_match_none, lemma_first_match_some,
};
use crate::text::{decimal_digits, decimal_string};
use crate::ui::ConsoleState;
use vstd::prelude::*;
use vstd::string::*;

verus! {

/// The fixtures with the identifier `id`.
pub open spec fn fixture_with(id: u32) -> spec_fn(Fixture) -> bool {
    |f: Fixture| f.id == id
}

/// The message for a fixture that is not there.
pub open spec fn fixture_missing(id: u32) -> Seq<char> {
    "Fixture "@ + decimal_digits(id as nat) + " not found"@
}

/// The message for an executor that is not there.
pub open spec fn executor_missing(number: u32) -> Seq<char> {
    "Executor "@ + decimal_digits(number as nat) + " not found"@
}

/// The message for a move that would need an identifier above the
/// largest.
pub open spec fn identifiers_exhausted() -> Seq<char> {
    "Cue identifiers exhausted"@
}

/// `post` is `pre` with nothing changed but the message `message` left.
pub open spec fn refused(pre: ConsoleState, post: ConsoleState, message: Seq<char>) -> bool {
    &&& post == (ConsoleState { command_error: post.command_error, ..pre })
    &&& post.command_error matches Some(m)
    &&& m@ == message
}

/// The history of `post` is that of `pre` and then `cmd`.
pub open spec fn recorded(pre: ConsoleState, post: ConsoleState, cmd: ConsoleCommand) -> bool {
    post.command_history@ == pre.command_history@.push(cmd)
}

/// Whether a dim command writes to a channel of function `kind`: always
/// to the intensity, and to white where the fixture shows no color.
pub open spec fn takes_dim(kind: ChannelType, white_too: bool) -> bool {
    kind == ChannelType::Intensity || (white_too && kind == ChannelType::White)
}

/// The buffer after a dim command went over the first `count` channels
/// of a fixture.
pub open spec fn dim_into(
    buffer: Seq<DMXBufferValue>,
    entries: Seq<(ChannelType, DMXBufferValue)>,
    count: int,
    white_too: bool,
    value: u8,
) -> Seq<DMXBufferValue>
    decreases count,
{
    if count <= 0 {
        buffer
    } else {
        let before = dim_into(buffer, entries, count - 1, white_too, value);
        if takes_dim(entries[count - 1].0, white_too) {
            buffer_set(before, entries[count - 1].1.chan, value)
        } else {
            before
        }
    }
}

/// Whether one of the first `count` channels has the function `kind`.
pub open spec fn has_kind(entries: Seq<(ChannelType, DMXBufferValue)>, count: int, kind: ChannelType) -> bool {
    exists|i: int| 0 <= i < count && (#[trigger] entries[i]).0 == kind
}

/// The value that a color command gives to a channel of function `kind`.
pub open spec fn color_part(kind: ChannelType, r: u8, g: u8, b: u8, w: u8) -> Option<u8> {
    match kind {
        ChannelType::Red => Some(r),
        ChannelType::Green => Some(g),
        ChannelType::Blue => Some(b),
        ChannelType::White => Some(w),
        _ => None,
    }
}

/// The buffer after a color command went over the first `count` channels
/// of a fixture.
pub open spec fn color_into(
    buffer: Seq<DMXBufferValue>,
    entries: Seq<(ChannelType, DMXBufferValue)>,
    count: int,
    r: u8,
    g: u8,
    b: u8,
    w: u8,
) -> Seq<DMXBufferValue>
    decreases count,
{
    if count <= 0 {
        buffer
    } else {
        let before = color_into(buffer, entries, count - 1, r, g, b, w);
        match color_part(entries[count - 1].0, r, g, b, w) {
            Some(value) => buffer_set(before, entries[count - 1].1.chan, value),
            None => before,
        }
    }
}

/// What `fix N at V` does.
pub open spec fn dim_applied(
    pre: ConsoleState,
    id: u32,
    value: u8,
    cmd: ConsoleCommand,
    post: ConsoleState,
) -> bool {
    match first_match(pre.fixtures@, fixture_with(id)) {
        None => refused(pre, post, fixture_missing(id)),
        Some(i) => {
            let f = pre.fixtures@[i];
            let lit = Fixture { intensity: value, ..f };
            &&& recorded(pre, post, cmd)
            &&& post == (ConsoleState {
                buffer: post.buffer,
                fixtures: post.fixtures,
                command_history: post.command_history,
                ..pre
            })
            &&& match first_match(pre.template_library.templates@, template_with(f.template_id)) {
                Some(k) => {
                    let entries = lit.as_buffer(&pre.template_library.templates@[k]);
                    let white_too = !(f.color.r != 0 || f.color.g != 0 || f.color.b != 0 || f.color.w
                        != 0);
                    &&& post.buffer@ == dim_into(
                        pre.buffer@,
                        entries,
                        entries.len() as int,
                        white_too,
                        value,
                    )
                    &&& post.fixtures@ == pre.fixtures@.update(
                        i,
                        if white_too && has_kind(entries, entries.len() as int, ChannelType::White) {
                            Fixture { color: Color { w: value, ..f.color }, ..lit }
                        } else {
                            lit
                        },
                    )
                },
                None => {
                    &&& post.buffer@ == buffer_set(pre.buffer@, f.start_channel, value)
                    &&& post.fixtures@ == pre.fixtures@.update(i, lit)
                },
            }
        },
    }
}

/// What `fix N color ..` does.
pub open spec fn color_applied(
    pre: ConsoleState,
    id: u32,
    r: u8,
    g: u8,
    b: u8,
    w: u8,
    cmd: ConsoleCommand,
    post: ConsoleState,
) -> bool {
    match first_match(pre.fixtures@, fixture_with(id)) {
        None => refused(pre, post, fixture_missing(id)),
        Some(i) => {
            let f = pre.fixtures@[i];
            match first_match(pre.template_library.templates@, template_with(f.template_id)) {
                Some(k) => {
                    let entries = f.as_buffer(&pre.template_library.templates@[k]);
                    &&& recorded(pre, post, cmd)
                    &&& post == (ConsoleState {
                        buffer: post.buffer,
                        fixtures: post.fixtures,
                        command_history: post.command_history,
                        ..pre
                    })
                    &&& post.buffer@ == color_into(
                        pre.buffer@,
                        entries,
                        entries.len() as int,
                        r,
                        g,
                        b,
                        w,
                    )
                    &&& post.fixtures@ == pre.fixtures@.update(
                        i,
                        Fixture { color: Color { r, g, b, w, ..f.color }, ..f },
                    )
                },
                None => post == pre,
            }
        },
    }
}

/// The place of the executor that a command calls `number`: executors
/// are counted from 1, and 0 stands for the first as well.
pub open spec fn executor_place(number: u32) -> int {
    if number == 0 {
        0
    } else {
        number - 1
    }
}

/// `post` are the executors `pre` with the cue list of the one at `a`
/// replaced by `list`.
pub open spec fn relisted(pre: Seq<Executor>, post: Seq<Executor>, a: int, list: Seq<Cue>) -> bool {
    &&& post.len() == pre.len()
    &&& forall|k: int| 0 <= k < pre.len() && k != a ==> #[trigger] post[k] == pre[k]
    &&& post[a] == (Executor { cue_list: post[a].cue_list, ..pre[a] })
    &&& post[a].cue_list@ == list
}

/// `post` are the executors `pre` with the cue lists of those at `a` and
/// `b` replaced.
pub open spec fn relisted_both(
    pre: Seq<Executor>,
    post: Seq<Executor>,
    a: int,
    list_a: Seq<Cue>,
    b: int,
    list_b: Seq<Cue>,
) -> bool {
    &&& post.len() == pre.len()
    &&& forall|k: int| 0 <= k < pre.len() && k != a && k != b ==> #[trigger] post[k] == pre[k]
    &&& post[a] == (Executor { cue_list: post[a].cue_list, ..pre[a] })
    &&& post[a].cue_list@ == list_a
    &&& post[b] == (Executor { cue_list: post[b].cue_list, ..pre[b] })
    &&& post[b].cue_list@ == list_b
}

/// `post` is `pre` with the command recorded and nothing else changed
/// but the executors.
pub open spec fn moved(pre: ConsoleState, post: ConsoleState, cmd: ConsoleCommand) -> bool {
    &&& recorded(pre, post, cmd)
    &&& post == (ConsoleState {
        executors: post.executors,
        command_history: post.command_history,
        ..pre
    })
}

/// What `move exec A cue X to exec B cue Y` does.
///
/// The cue `X` of executor `A` is looked up, and so is the cue `Y` of
/// `B`. Without `X` nothing happens. Within one executor the two cues
/// change places. Between two executors they are exchanged, each list
/// making room for the identifier that arrives. Where `B` has no cue `Y`,
/// the cue leaves `A` and `B` takes it in.
pub open spec fn move_applied(
    pre: ConsoleState,
    exec_from: u32,
    cue_from: u32,
    exec_to: u32,
    cue_to: u32,
    cmd: ConsoleCommand,
    post: ConsoleState,
) -> bool {
    let a = executor_place(exec_from);
    let b = executor_place(exec_to);
    if a >= pre.executors@.len() {
        refused(pre, post, executor_missing(exec_from))
    } else if b >= pre.executors@.len() {
        refused(pre, post, executor_missing(exec_to))
    } else {
        let from = pre.executors@[a].cue_list@;
        let to = pre.executors@[b].cue_list@;
        match first_match(from, has_id(cue_from)) {
            None => post == pre,
            Some(i) => match first_match(to, has_id(cue_to)) {
                Some(j) => if a == b {
                    &&& moved(pre, post, cmd)
                    &&& relisted(pre.executors@, post.executors@, a, swapped(from, i, j))
                } else if !shift_fits(to.remove(j), from[i].id) || !shift_fits(
                    from.remove(i),
                    to[j].id,
                ) {
                    refused(pre, post, identifiers_exhausted())
                } else {
                    &&& moved(pre, post, cmd)
                    &&& relisted_both(
                        pre.executors@,
                        post.executors@,
                        a,
                        exchanged(from, i, to[j]),
                        b,
                        exchanged(to, j, from[i]),
                    )
                },
                None => if a == b {
                    if !shift_fits(from.remove(i), from[i].id) {
                        refused(pre, post, identifiers_exhausted())
                    } else {
                        &&& moved(pre, post, cmd)
                        &&& relisted(
                            pre.executors@,
                            post.executors@,
                            a,
                            taken_in(from.remove(i), from[i], cue_to),
                        )
                    }
                } else if !shift_fits(to, from[i].id) {
                    refused(pre, post, identifiers_exhausted())
                } else {
                    &&& moved(pre, post, cmd)
                    &&& relisted_both(
                        pre.executors@,
                        post.executors@,
                        a,
                        from.remove(i),
                        b,
                        taken_in(to, from[i], cue_to),
                    )
                },
            },
        }
    }
}

/// The cues of a list that stay when a cue arrives for the identifier
/// `wanted`: all but the first cue with that identifier, which leaves in
/// exchange.
pub open spec fn staying(list: Seq<Cue>, wanted: u32) -> Seq<Cue> {
    match first_match(list, has_id(wanted)) {
        Some(j) => list.remove(j),
        None => list,
    }
}

/// The place that a cue takes which arrives in `list` for the identifier
/// `wanted`: that of the cue which leaves in exchange, or, without one,
/// the place that the identifier stands for.
pub open spec fn arrival_place(list: Seq<Cue>, wanted: u32) -> int {
    match first_match(list, has_id(wanted)) {
        Some(j) => j,
        None => insert_place(list.len() as int, wanted),
    }
}

/// A cue that moves to another executor keeps its identifier, and the
/// executor that takes it in makes room: of the cues that stay there,
/// those before the first one with the identifier are kept as they are,
/// and that one and all after it go up by one. All keep their order, the
/// arrival at its place among them.
///
/// This is said of a move that was carried out between two executors
/// where a cue that stays has the identifier of the one that arrives.
pub proof fn lemma_move_renumbers(
    pre: ConsoleState,
    post: ConsoleState,
    exec_from: u32,
    cue_from: u32,
    exec_to: u32,
    cue_to: u32,
    cmd: ConsoleCommand,
)
    requires
        move_applied(pre, exec_from, cue_from, exec_to, cue_to, cmd, post),
        executor_place(exec_from) < pre.executors@.len(),
        executor_place(exec_to) < pre.executors@.len(),
        executor_place(exec_from) != executor_place(exec_to),
        first_match(pre.executors@[executor_place(exec_from)].cue_list@, has_id(cue_from)) is Some,
        first_match(
            staying(pre.executors@[executor_place(exec_to)].cue_list@, cue_to),
            has_id(cue_from),
        ) is Some,
        recorded(pre, post, cmd),
    ensures
        ({
            let from = pre.executors@[executor_place(exec_from)].cue_list@;
            let to = pre.executors@[executor_place(exec_to)].cue_list@;
            let moved = from[first_match(from, has_id(cue_from))->0];
            let stay = staying(to, cue_to);
            let at = arrival_place(to, cue_to);
            let after = post.executors@[executor_place(exec_to)].cue_list@;
            &&& moved.id == cue_from
            &&& after.len() == stay.len() + 1
            &&& after[at] == moved
            &&& forall|k: int|
                0 <= k < stay.len() ==> after[place_after(k, at)] == if k >= first_match(
                    stay,
                    has_id(cue_from),
                )->0 {
                    raised(#[trigger] stay[k])
                } else {
                    stay[k]
                }
        }),
{
    let a = executor_place(exec_from);
    let b = executor_place(exec_to);
    let from = pre.executors@[a].cue_list@;
    let to = pre.executors@[b].cue_list@;
    lemma_first_match_is(from, has_id(cue_from));
    lemma_first_match_is(to, has_id(cue_to));
    let i = first_match(from, has_id(cue_from))->0;
    let stay = staying(to, cue_to);
    let at = arrival_place(to, cue_to);
    lemma_first_match_is(stay, has_id(from[i].id));
    // The command was recorded, so it was not refused.
    assert(pre.command_history@.push(cmd).len() == pre.command_history@.len() + 1);
    match first_match(to, has_id(cue_to)) {
        Some(j) => {
            assert(post.executors@[b].cue_list@ == exchanged(to, j, from[i]));
        },
        None => {
            assert(post.executors@[b].cue_list@ == taken_in(to, from[i], cue_to));
        },
    }
    lemma_arrival_renumbers(stay, at, from[i]);
    crate::cue_list::lemma_shifted_cues(stay, from[i].id);
}

/// What `move exec A cue X up` and `.. down` do: the cue changes places
/// with the next one, or the one before, around the ends of the list.
pub open spec fn nudge_applied(
    pre: ConsoleState,
    exec_from: u32,
    cue_from: u32,
    direction: Direction,
    cmd: ConsoleCommand,
    post: ConsoleState,
) -> bool {
    let a = executor_place(exec_from);
    if a >= pre.executors@.len() {
        refused(pre, post, executor_missing(exec_from))
    } else {
        let list = pre.executors@[a].cue_list@;
        match first_match(list, has_id(cue_from)) {
            None => post == pre,
            Some(i) => {
                let other = match direction {
                    Direction::Up => place_above(i, list.len() as int),
                    Direction::Down => place_below(i, list.len() as int),
                };
                &&& moved(pre, post, cmd)
                &&& relisted(pre.executors@, post.executors@, a, swapped(list, i, other))
            },
        }
    }
}

/// The master dimmer after a blackout command: dark where it was up, and
/// full where it was dark.
pub open spec fn toggled(master: u32) -> u32 {
    if master != 0 {
        0
    } else {
        LEVEL_FULL
    }
}

/// What carrying out `cmd` makes of `pre`.
pub open spec fn applied(pre: ConsoleState, cmd: ConsoleCommand, post: ConsoleState) -> bool {
    match cmd {
        ConsoleCommand::Blackout => {
            &&& recorded(pre, post, cmd)
            &&& post == (ConsoleState {
                command_history: post.command_history,
                master_dimmer: toggled(pre.master_dimmer),
                ..pre
            })
        },
        ConsoleCommand::Clear => {
            &&& recorded(pre, post, cmd)
            &&& post == (ConsoleState {
                command_history: post.command_history,
                buffer: post.buffer,
                ..pre
            })
            &&& post.buffer@ == Seq::<DMXBufferValue>::empty()
        },
        ConsoleCommand::DimChannel { ch, value } => {
            &&& recorded(pre, post, cmd)
            &&& post == (ConsoleState {
                command_history: post.command_history,
                buffer: post.buffer,
                ..pre
            })
            &&& post.buffer@ == buffer_set(pre.buffer@, ch, value)
        },
        ConsoleCommand::DimFixture { fixture_id, value } => dim_applied(
            pre,
            fixture_id,
            value,
            cmd,
            post,
        ),
        ConsoleCommand::SetFixtureColor { fixture_id, r, g, b, w } => color_applied(
            pre,
            fixture_id,
            r,
            g,
            b,
            w,
            cmd,
            post,
        ),
        ConsoleCommand::MoveExecCueToExecCue { exec_from, cue_from, exec_to, cue_to } => move_applied(
            pre,
            exec_from,
            cue_from,
            exec_to,
            cue_to,
            cmd,
            post,
        ),
        ConsoleCommand::MoveExecCueDirection { exec_from, cue_from, direction } => nudge_applied(
            pre,
            exec_from,
            cue_from,
            direction,
            cmd,
            post,
        ),
    }
}

/// Setting a channel from the command line leaves exactly one value for
/// it in a buffer of distinct channels, the value given, and the channels
/// stay distinct.
pub proof fn lemma_chan_sets_one(pre: ConsoleState, post: ConsoleState, ch: usize, value: u8)
    requires
        applied(pre, ConsoleCommand::DimChannel { ch, value }, post),
        distinct_channels(pre.buffer@),
    ensures
        distinct_channels(post.buffer@),
        count_on(post.buffer@, ch) == 1,
        exists|i: int|
            0 <= i < post.buffer@.len() && #[trigger] post.buffer@[i] == (DMXBufferValue {
                chan: ch,
                dmx: value,
            }),
{
    lemma_set_keeps_one(pre.buffer@, ch, value);
}

/// A nudge upwards on the last cue of a list exchanges it with the
/// first, and a nudge downwards on the first exchanges it with the last.
pub proof fn lemma_nudge_around(
    pre: ConsoleState,
    post: ConsoleState,
    exec_from: u32,
    cue_from: u32,
    direction: Direction,
    cmd: ConsoleCommand,
)
    requires
        nudge_applied(pre, exec_from, cue_from, direction, cmd, post),
        executor_place(exec_from) < pre.executors@.len(),
        first_match(pre.executors@[executor_place(exec_from)].cue_list@, has_id(cue_from)) is Some,
    ensures
        ({
            let list = pre.executors@[executor_place(exec_from)].cue_list@;
            let at = first_match(list, has_id(cue_from))->0;
            let after = post.executors@[executor_place(exec_from)].cue_list@;
            &&& direction == Direction::Up && at == list.len() - 1 ==> after == swapped(
                list,
                list.len() - 1,
                0,
            )
            &&& direction == Direction::Down && at == 0 ==> after == swapped(
                list,
                0,
                list.len() - 1,
            )
        }),
{
    let list = pre.executors@[executor_place(exec_from)].cue_list@;
    lemma_first_match_is(list, has_id(cue_from));
    lemma_nudge_wraps(list.len() as int);
}

/// Where the first fixture with the identifier `id` lies.
pub fn find_fixture(fixtures: &Vec<Fixture>, id: u32) -> (r: Option<usize>)
    ensures
        match r {
            Some(i) => first_match(fixtures@, fixture_with(id)) == Some(i as int) && i
                < fixtures@.len(),
            None => first_match(fixtures@, fixture_with(id)) is None,
        },
{
    let mut i: usize = 0;
    while i < fixtures.len()
        invariant
            i <= fixtures@.len(),
            forall|j: int| 0 <= j < i ==> !fixture_with(id)(#[trigger] fixtures@[j]),
        decreases fixtures@.len() - i,
    {
        if fixtures[i].id == id {
            proof {
                assert(is_first(fixtures@, fixture_with(id), i as int));
                lemma_first_match_some(fixtures@, fixture_with(id), i as int);
            }
            return Some(i);
        }
        i = i + 1;
    }
    proof {
        lemma_first_match_none(fixtures@, fixture_with(id));
    }
    None
}

fn not_found(what: &str, number: u32) -> (m: String)
    ensures
        m@ == what@ + decimal_digits(number as nat) + " not found"@,
{
    let mut m = String::from_str(what);
    let digits = decimal_string(number as u64);
    m.append(digits.as_str());
    m.append(" not found");
    m
}

fn dim_fixture(state: &mut ConsoleState, fixture_id: u32, value: u8, cmd: ConsoleCommand)
    ensures
        dim_applied(*old(state), fixture_id, value, cmd, *final(state)),
{
    let i = match find_fixture(&state.fixtures, fixture_id) {
        Some(i) => i,
        None => {
            state.command_error = Some(not_found("Fixture ", fixture_id));
            return ;
        },
    };
    let ghost f = state.fixtures@[i as int];
    let white_too = !state.fixtures[i].color.has_color();
    state.fixtures[i].intensity = value;
    let ghost lit = state.fixtures@[i as int];
    assert(lit == (Fixture { intensity: value, ..f }));
    assert(state.fixtures@ =~= old(state).fixtures@.update(i as int, lit));
    let entries = match state.template_library.get_template(state.fixtures[i].template_id) {
        Some(template) => Some(state.fixtures[i].get_fixture_as_buffer(template)),
        None => None,
    };
    match entries {
        Some(entries) => {
            let mut seen_white = false;
            let mut k: usize = 0;
            while k < entries.len()
                invariant
                    k <= entries@.len(),
                    i < old(state).fixtures@.len(),
                    state.buffer@ == dim_into(
                        old(state).buffer@,
                        entries@,
                        k as int,
                        white_too,
                        value,
                    ),
                    seen_white == has_kind(entries@, k as int, ChannelType::White),
                    *state == (ConsoleState {
                        buffer: state.buffer,
                        fixtures: state.fixtures,
                        ..*old(state)
                    }),
                    state.fixtures@ == old(state).fixtures@.update(i as int, lit),
                decreases entries@.len() - k,
            {
                let kind = entries[k].0;
                let chan = entries[k].1.chan;
                if kind.is(ChannelType::Intensity) || (white_too && kind.is(ChannelType::White)) {
                    set_buffer_value(&mut state.buffer, chan, value);
                }
                proof {
                    if kind == ChannelType::White {
                        assert(entries@[k as int].0 == ChannelType::White);
                    } else if has_kind(entries@, k + 1, ChannelType::White) {
                        let at = choose|at: int|
                            0 <= at < k + 1 && (#[trigger] entries@[at]).0 == ChannelType::White;
                        assert(at < k);
                    }
                }
                if kind.is(ChannelType::White) {
                    seen_white = true;
                }
                k = k + 1;
            }
            if white_too && seen_white {
                state.fixtures[i].color.w = value;
                assert(state.fixtures@ =~= old(state).fixtures@.update(
                    i as int,
                    Fixture { color: Color { w: value, ..f.color }, ..lit },
                ));
            }
        },
        None => {
            let channel = state.fixtures[i].start_channel;
            set_buffer_value(&mut state.buffer, channel, value);
        },
    }
    state.command_history.push(cmd);
}

fn color_fixture(
    state: &mut ConsoleState,
    fixture_id: u32,
    r: u8,
    g: u8,
    b: u8,
    w: u8,
    cmd: ConsoleCommand,
)
    ensures
        color_applied(*old(state), fixture_id, r, g, b, w, cmd, *final(state)),
{
    let i = match find_fixture(&state.fixtures, fixture_id) {
        Some(i) => i,
        None => {
            state.command_error = Some(not_found("Fixture ", fixture_id));
            return ;
        },
    };
    let entries = match state.template_library.get_template(state.fixtures[i].template_id) {
        Some(template) => state.fixtures[i].get_fixture_as_buffer(template),
        None => {
            return ;
        },
    };
    let mut k: usize = 0;
    while k < entries.len()
        invariant
            k <= entries@.len(),
            state.buffer@ == color_into(old(state).buffer@, entries@, k as int, r, g, b, w),
            *state == (ConsoleState { buffer: state.buffer, ..*old(state) }),
        decreases entries@.len() - k,
    {
        let chan = entries[k].1.chan;
        match entries[k].0 {
            ChannelType::Red => set_buffer_value(&mut state.buffer, chan, r),
            ChannelType::Green => set_buffer_value(&mut state.buffer, chan, g),
            ChannelType::Blue => set_buffer_value(&mut state.buffer, chan, b),
            ChannelType::White => set_buffer_value(&mut state.buffer, chan, w),
            _ => {},
        }
        k = k + 1;
    }
    let ghost f = state.fixtures@[i as int];
    state.fixtures[i].color.r = r;
    state.fixtures[i].color.g = g;
    state.fixtures[i].color.b = b;
    state.fixtures[i].color.w = w;
    assert(state.fixtures@ =~= old(state).fixtures@.update(
        i as int,
        Fixture { color: Color { r, g, b, w, ..f.color }, ..f },
    ));
    state.command_history.push(cmd);
}

/// Puts `cue` into `list` as a move to the missing identifier `wanted`
/// does.
fn take_in(list: &mut Vec<Cue>, cue: Cue, wanted: u32)
    requires
        shift_fits(old(list)@, cue.id),
    ensures
        final(list)@ == taken_in(old(list)@, cue, wanted),
{
    if list.len() == 0 {
        list.push(cue);
    } else {
        shift_ids(list, cue.id);
        let place: usize = if wanted == 0 {
            0
        } else {
            (wanted - 1) as usize
        };
        let at = if place > list.len() {
            list.len()
        } else {
            place
        };
        assert(at == insert_place(old(list)@.len() as int, wanted));
        list.insert(at, cue);
    }
}

fn executor_index(number: u32) -> (place: usize)
    ensures
        place == executor_place(number),
{
    number.saturating_sub(1) as usize
}

fn move_cue(
    state: &mut ConsoleState,
    exec_from: u32,
    cue_from: u32,
    exec_to: u32,
    cue_to: u32,
    cmd: ConsoleCommand,
)
    ensures
        move_applied(*old(state), exec_from, cue_from, exec_to, cue_to, cmd, *final(state)),
{
    let a = executor_index(exec_from);
    let b = executor_index(exec_to);
    if a >= state.executors.len() {
        state.command_error = Some(not_found("Executor ", exec_from));
        return ;
    }
    if b >= state.executors.len() {
        state.command_error = Some(not_found("Executor ", exec_to));
        return ;
    }
    let i = match find_cue(&state.executors[a].cue_list, cue_from) {
        Some(i) => i,
        None => {
            return ;
        },
    };
    let ghost from = state.executors@[a as int].cue_list@;
    let ghost to = state.executors@[b as int].cue_list@;
    let moving_id = state.executors[a].cue_list[i].id;
    match find_cue(&state.executors[b].cue_list, cue_to) {
        Some(j) => {
            if a == b {
                swap_cues(&mut state.executors[a].cue_list, i, j);
            } else {
                let arriving_id = state.executors[b].cue_list[j].id;
                if !can_shift_without(&state.executors[b].cue_list, j, moving_id)
                    || !can_shift_without(&state.executors[a].cue_list, i, arriving_id) {
                    state.command_error = Some(String::from_str("Cue identifiers exhausted"));
                    return ;
                }
                let cue = state.executors[a].cue_list.remove(i);
                let other = state.executors[b].cue_list.remove(j);
                shift_ids(&mut state.executors[b].cue_list, cue.id);
                shift_ids(&mut state.executors[a].cue_list, other.id);
                state.executors[a].cue_list.insert(i, other);
                state.executors[b].cue_list.insert(j, cue);
            }
        },
        None => {
            if a == b {
                if !can_shift_without(&state.executors[a].cue_list, i, moving_id) {
                    state.command_error = Some(String::from_str("Cue identifiers exhausted"));
                    return ;
                }
                let cue = state.executors[a].cue_list.remove(i);
                take_in(&mut state.executors[a].cue_list, cue, cue_to);
            } else {
                if !can_shift(&state.executors[b].cue_list, moving_id) {
                    state.command_error = Some(String::from_str("Cue identifiers exhausted"));
                    return ;
                }
                let cue = state.executors[a].cue_list.remove(i);
                take_in(&mut state.executors[b].cue_list, cue, cue_to);
            }
        },
    }
    state.command_history.push(cmd);
}

fn nudge_cue(
    state: &mut ConsoleState,
    exec_from: u32,
    cue_from: u32,
    direction: Direction,
    cmd: ConsoleCommand,
)
    ensures
        nudge_applied(*old(state), exec_from, cue_from, direction, cmd, *final(state)),
{
    let a = executor_index(exec_from);
    if a >= state.executors.len() {
        state.command_error = Some(not_found("Executor ", exec_from));
        return ;
    }
    let i = match find_cue(&state.executors[a].cue_list, cue_from) {
        Some(i) => i,
        None => {
            return ;
        },
    };
    let n = state.executors[a].cue_list.len();
    let other = match direction {
        Direction::Up => if i + 1 == n {
            0
        } else {
            i + 1
        },
        Direction::Down => if i == 0 {
            n - 1
        } else {
            i - 1
        },
    };
    proof {
        let len = n as int;
        if i + 1 == n {
            vstd::arithmetic::div_mod::lemma_mod_self_0(len);
        } else {
            vstd::arithmetic::div_mod::lemma_small_mod((i + 1) as nat, n as nat);
        }
        if i == 0 {
            vstd::arithmetic::div_mod::lemma_small_mod((n - 1) as nat, n as nat);
        } else {
            vstd::arithmetic::div_mod::lemma_mod_add_multiples_vanish(i - 1, len);
            vstd::arithmetic::div_mod::lemma_small_mod((i - 1) as nat, n as nat);
        }
    }
    swap_cues(&mut state.executors[a].cue_list, i, other);
    state.command_history.push(cmd);
}

/// Carries out `cmd`.
pub fn apply_command(state: &mut ConsoleState, cmd: ConsoleCommand)
    ensures
        applied(*old(state), cmd, *final(state)),
{
    match cmd {
        ConsoleCommand::Blackout => {
            state.command_history.push(cmd);
            state.master_dimmer = if state.master_dimmer != 0 {
                0
            } else {
                LEVEL_FULL
            };
        },
        ConsoleCommand::Clear => {
            state.command_history.push(cmd);
            state.buffer.clear();
        },
        ConsoleCommand::DimChannel { ch, value } => {
            set_buffer_value(&mut state.buffer, ch, value);
            state.command_history.push(cmd);
        },
        ConsoleCommand::DimFixture { fixture_id, value } => {
            dim_fixture(state, fixture_id, value, cmd);
        },
        ConsoleCommand::SetFixtureColor { fixture_id, r, g, b, w } => {
            color_fixture(state, fixture_id, r, g, b, w, cmd);
        },
        ConsoleCommand::MoveExecCueToExecCue { exec_from, cue_from, exec_to, cue_to } => {
            move_cue(state, exec_from, cue_from, exec_to, cue_to, cmd);
        },
        ConsoleCommand::MoveExecCueDirection { exec_from, cue_from, direction } => {
            nudge_cue(state, exec_from, cue_from, direction, cmd);
        },
    }
}

/// `post` is what the command line `pre.command_input` makes of `pre`: a
/// line that is no command leaves its reason as the message and nothing
/// else changed; a command is carried out on the state with the old
/// message gone.
pub open spec fn executed(pre: ConsoleState, post: ConsoleState) -> bool {
    match spec_parse(pre.command_input@) {
        Ok(cmd) => applied(ConsoleState { command_error: None, ..pre }, cmd, post),
        Err(e) => refused(pre, post, e.message()),
    }
}

/// Reads the command line and carries the command out.
pub fn execute_console_command(state: &mut ConsoleState)
    ensures
        executed(*old(state), *final(state)),
{
    state.command_error = None;
    let ghost cleared = *state;
    match ConsoleCommand::parse(state.command_input.as_str()) {
        Ok(cmd) => {
            apply_command(state, cmd);
            assert(applied(cleared, cmd, *state));
        },
        Err(e) => {
            state.command_error = Some(e.message());
        },
    }
}

} // verus!
