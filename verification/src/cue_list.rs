//! Moving cues within a list and between lists. Within one list a cue's
//! identifier is its key, so a list that takes a cue in makes room first:
//! from its first cue with the incoming identifier on, every identifier
//! goes up by one.

use crate::executor::Cue;
use crate::search::{
    first_match, is_first, lemma_first_match_is, lemma_first_match_none, lemma_first_match_some,
    none_match,
};
use vstd::prelude::*;

verus! {

/// The cues of `list` carry the identifier `id`.
pub open spec fn has_id(id: u32) -> spec_fn(Cue) -> bool {
    |c: Cue| c.id == id
}

/// `cue` under the identifier one higher.
pub open spec fn raised(cue: Cue) -> Cue {
    Cue { id: (cue.id + 1) as u32, ..cue }
}

/// `list` with room made for the identifier `id`: from the first cue that
/// has it on, every cue's identifier is one higher; a list without such a
/// cue is kept.
pub open spec fn shifted(list: Seq<Cue>, id: u32) -> Seq<Cue> {
    match first_match(list, has_id(id)) {
        Some(k) => Seq::new(
            list.len(),
            |i: int|
                if i >= k {
                    raised(list[i])
                } else {
                    list[i]
                },
        ),
        None => list,
    }
}

/// Making room for `id` in `list` stays within the identifiers there are:
/// no cue that would go up holds the largest one.
pub open spec fn shift_fits(list: Seq<Cue>, id: u32) -> bool {
    match first_match(list, has_id(id)) {
        Some(k) => forall|i: int| k <= i < list.len() ==> (#[trigger] list[i]).id < u32::MAX,
        None => true,
    }
}

/// `list` with the cues at `i` and `j` exchanged.
pub open spec fn swapped(list: Seq<Cue>, i: int, j: int) -> Seq<Cue> {
    list.update(i, list[j]).update(j, list[i])
}

/// The place that a nudge upwards exchanges `i` with: the next one, the
/// first after the last.
pub open spec fn place_above(i: int, len: int) -> int {
    (i + 1) % len
}

/// The place that a nudge downwards exchanges `i` with: the one before,
/// the last before the first.
pub open spec fn place_below(i: int, len: int) -> int {
    (len + i - 1) % len
}

/// The list that takes `cue` in at a place that `wanted`, an identifier
/// of no cue there, stands for: room is made for the cue's identifier and
/// the cue goes to the place `wanted - 1`, or to the end where the list is
/// shorter. An empty list just takes the cue.
pub open spec fn taken_in(list: Seq<Cue>, cue: Cue, wanted: u32) -> Seq<Cue> {
    if list.len() == 0 {
        list.push(cue)
    } else {
        shifted(list, cue.id).insert(insert_place(list.len() as int, wanted), cue)
    }
}

/// Where a cue goes that is moved to the missing identifier `wanted` in a
/// list of `len` cues.
pub open spec fn insert_place(len: int, wanted: u32) -> int {
    let place = if wanted == 0 {
        0
    } else {
        wanted - 1
    };
    if place > len {
        len
    } else {
        place
    }
}

/// The list that gives its cue at `at` away and gets `cue` for it: the
/// rest makes room for the identifier of `cue`, which then takes the place
/// `at`.
pub open spec fn exchanged(list: Seq<Cue>, at: int, cue: Cue) -> Seq<Cue> {
    shifted(list.remove(at), cue.id).insert(at, cue)
}

/// No two cues of `list` share an identifier.
pub open spec fn distinct_ids(list: Seq<Cue>) -> bool {
    forall|i: int, j: int|
        0 <= i < list.len() && 0 <= j < list.len() && i != j ==> (#[trigger] list[i]).id != (
        #[trigger] list[j]).id
}

/// The identifiers of `list` go up from each cue to the next.
pub open spec fn rising_ids(list: Seq<Cue>) -> bool {
    forall|i: int, j: int|
        0 <= i < j < list.len() ==> (#[trigger] list[i]).id < (#[trigger] list[j]).id
}

/// Where the first cue with the identifier `id` lies.
pub fn find_cue(list: &Vec<Cue>, id: u32) -> (r: Option<usize>)
    ensures
        match r {
            Some(i) => first_match(list@, has_id(id)) == Some(i as int) && i < list@.len(),
            None => first_match(list@, has_id(id)) is None,
        },
{
    let mut i: usize = 0;
    while i < list.len()
        invariant
            i <= list@.len(),
            forall|j: int| 0 <= j < i ==> !has_id(id)(#[trigger] list@[j]),
        decreases list@.len() - i,
    {
        if list[i].id == id {
            proof {
                assert(is_first(list@, has_id(id), i as int));
                lemma_first_match_some(list@, has_id(id), i as int);
            }
            return Some(i);
        }
        i = i + 1;
    }
    proof {
        lemma_first_match_none(list@, has_id(id));
    }
    None
}

/// Whether room can be made for `id`.
pub fn can_shift(list: &Vec<Cue>, id: u32) -> (r: bool)
    ensures
        r == shift_fits(list@, id),
{
    match find_cue(list, id) {
        Some(k) => {
            let mut i: usize = k;
            while i < list.len()
                invariant
                    k <= i <= list@.len(),
                    first_match(list@, has_id(id)) == Some(k as int),
                    forall|j: int| k <= j < i ==> (#[trigger] list@[j]).id < u32::MAX,
                decreases list@.len() - i,
            {
                if list[i].id == u32::MAX {
                    assert(!(list@[i as int].id < u32::MAX));
                    return false;
                }
                i = i + 1;
            }
            true
        },
        None => true,
    }
}

/// Whether room can be made for `id` once the cue at `skip` has left.
pub fn can_shift_without(list: &Vec<Cue>, skip: usize, id: u32) -> (r: bool)
    requires
        skip < list@.len(),
    ensures
        r == shift_fits(list@.remove(skip as int), id),
{
    let ghost rest = list@.remove(skip as int);
    let ghost mut first: int = 0;
    let mut found = false;
    let mut j: usize = 0;
    while j < list.len()
        invariant
            j <= list@.len(),
            skip < list@.len(),
            rest == list@.remove(skip as int),
            !found ==> forall|q: int|
                0 <= q < (if j <= skip {
                    j as int
                } else {
                    j - 1
                }) ==> !has_id(id)(#[trigger] rest[q]),
            found ==> is_first(rest, has_id(id), first),
            found ==> first < (if j <= skip {
                j as int
            } else {
                j - 1
            }),
            found ==> forall|q: int|
                first <= q < (if j <= skip {
                    j as int
                } else {
                    j - 1
                }) ==> (#[trigger] rest[q]).id < u32::MAX,
        decreases list@.len() - j,
    {
        if j != skip {
            let ghost m: int = if j < skip {
                j as int
            } else {
                j - 1
            };
            assert(rest[m] == list@[j as int]);
            if !found && list[j].id == id {
                found = true;
                proof {
                    first = m;
                }
            }
            if found && list[j].id == u32::MAX {
                proof {
                    lemma_first_match_some(rest, has_id(id), first);
                    assert(!(rest[m].id < u32::MAX));
                }
                return false;
            }
        }
        j = j + 1;
    }
    proof {
        if found {
            lemma_first_match_some(rest, has_id(id), first);
        } else {
            lemma_first_match_none(rest, has_id(id));
        }
    }
    true
}

/// Makes room for `id`.
pub fn shift_ids(list: &mut Vec<Cue>, id: u32)
    requires
        shift_fits(old(list)@, id),
    ensures
        final(list)@ == shifted(old(list)@, id),
{
    match find_cue(list, id) {
        Some(k) => {
            let mut i: usize = k;
            while i < list.len()
                invariant
                    k <= i <= list@.len(),
                    list@.len() == old(list)@.len(),
                    first_match(old(list)@, has_id(id)) == Some(k as int),
                    shift_fits(old(list)@, id),
                    forall|j: int|
                        0 <= j < list@.len() ==> #[trigger] list@[j] == if k <= j < i {
                            raised(old(list)@[j])
                        } else {
                            old(list)@[j]
                        },
                decreases list@.len() - i,
            {
                let next = list[i].id + 1;
                list[i].id = next;
                i = i + 1;
            }
            assert(list@ =~= shifted(old(list)@, id));
        },
        None => {},
    }
}

/// Exchanges the cues at `i` and `j`.
pub fn swap_cues(list: &mut Vec<Cue>, i: usize, j: usize)
    requires
        i < old(list)@.len(),
        j < old(list)@.len(),
    ensures
        final(list)@ == swapped(old(list)@, i as int, j as int),
{
    crate::listing::swap_items(list, i, j);
}

/// What making room does to each cue: those before the first cue with
/// the identifier stay, the others go up by one and are otherwise kept.
pub proof fn lemma_shifted_cues(list: Seq<Cue>, id: u32)
    ensures
        shifted(list, id).len() == list.len(),
        match first_match(list, has_id(id)) {
            Some(k) => {
                &&& 0 <= k < list.len()
                &&& list[k].id == id
                &&& forall|i: int| 0 <= i < k ==> #[trigger] shifted(list, id)[i] == list[i]
                &&& forall|i: int|
                    k <= i < list.len() ==> #[trigger] shifted(list, id)[i] == raised(list[i])
            },
            None => shifted(list, id) == list,
        },
{
    lemma_first_match_is(list, has_id(id));
}

/// A list whose identifiers rise keeps them rising when room is made, and
/// then holds no cue with the identifier that room was made for.
pub proof fn lemma_shifted_rising(list: Seq<Cue>, id: u32)
    requires
        rising_ids(list),
        shift_fits(list, id),
    ensures
        rising_ids(shifted(list, id)),
        none_match(shifted(list, id), has_id(id)),
{
    lemma_first_match_is(list, has_id(id));
    let s = shifted(list, id);
    match first_match(list, has_id(id)) {
        Some(k) => {
            assert forall|i: int, j: int| 0 <= i < j < s.len() implies (#[trigger] s[i]).id < (
            #[trigger] s[j]).id by {
                assert(list[i].id < list[j].id);
            }
            assert forall|j: int| 0 <= j < s.len() implies !has_id(id)(#[trigger] s[j]) by {
                if j < k {
                    assert(!has_id(id)(list[j]));
                } else if j > k {
                    assert(list[k].id < list[j].id);
                }
            }
        },
        None => {},
    }
}

/// Rising identifiers are distinct.
pub proof fn lemma_rising_distinct(list: Seq<Cue>)
    requires
        rising_ids(list),
    ensures
        distinct_ids(list),
{
    assert forall|i: int, j: int|
        0 <= i < list.len() && 0 <= j < list.len() && i != j implies (#[trigger] list[i]).id != (
    #[trigger] list[j]).id by {
        if i < j {
            assert(list[i].id < list[j].id);
        } else {
            assert(list[j].id < list[i].id);
        }
    }
}

/// A list of distinct identifiers that holds none equal to the one of
/// `cue` still has distinct identifiers once `cue` is put in anywhere.
pub proof fn lemma_insert_distinct(list: Seq<Cue>, at: int, cue: Cue)
    requires
        distinct_ids(list),
        none_match(list, has_id(cue.id)),
        0 <= at <= list.len(),
    ensures
        distinct_ids(list.insert(at, cue)),
{
    let r = list.insert(at, cue);
    assert forall|i: int, j: int| 0 <= i < r.len() && 0 <= j < r.len() && i != j implies (
    #[trigger] r[i]).id != (#[trigger] r[j]).id by {
        let a = if i < at {
            i
        } else {
            i - 1
        };
        let b = if j < at {
            j
        } else {
            j - 1
        };
        if i == at {
            assert(!has_id(cue.id)(list[b]));
        } else if j == at {
            assert(!has_id(cue.id)(list[a]));
        } else {
            assert(list[a].id != list[b].id);
        }
    }
}

/// Where the cue at place `i` lies once another was put in at `at`.
pub open spec fn place_after(i: int, at: int) -> int {
    if i < at {
        i
    } else {
        i + 1
    }
}

/// A cue that arrives in a list with a cue of its own identifier keeps
/// that identifier; of the cues that were there, those before the first
/// one with it are kept, and that one and all after it go up by one. All
/// keep their order, the arrival at the place `at` among them.
pub proof fn lemma_arrival_renumbers(list: Seq<Cue>, at: int, cue: Cue)
    requires
        0 <= at <= list.len(),
        first_match(list, has_id(cue.id)) is Some,
    ensures
        shifted(list, cue.id).insert(at, cue)[at] == cue,
        forall|i: int|
            0 <= i < list.len() ==> shifted(list, cue.id).insert(at, cue)[place_after(i, at)] == if i
                >= first_match(list, has_id(cue.id))->0 {
                raised(#[trigger] list[i])
            } else {
                list[i]
            },
{
    lemma_shifted_cues(list, cue.id);
}

/// A list whose identifiers rise has distinct identifiers after a cue
/// arrived in it, wherever the cue went.
pub proof fn lemma_arrival_distinct(list: Seq<Cue>, at: int, cue: Cue)
    requires
        rising_ids(list),
        shift_fits(list, cue.id),
        0 <= at <= list.len(),
    ensures
        distinct_ids(shifted(list, cue.id).insert(at, cue)),
{
    lemma_shifted_rising(list, cue.id);
    lemma_rising_distinct(shifted(list, cue.id));
    lemma_shifted_cues(list, cue.id);
    lemma_insert_distinct(shifted(list, cue.id), at, cue);
}

/// Exchanging two cues keeps the identifiers of a list distinct.
pub proof fn lemma_swap_keeps_distinct(list: Seq<Cue>, i: int, j: int)
    requires
        distinct_ids(list),
        0 <= i < list.len(),
        0 <= j < list.len(),
    ensures
        distinct_ids(swapped(list, i, j)),
{
    let after = swapped(list, i, j);
    let back = |k: int|
        if k == i {
            j
        } else if k == j {
            i
        } else {
            k
        };
    assert forall|a: int, b: int|
        0 <= a < after.len() && 0 <= b < after.len() && a != b implies (#[trigger] after[a]).id != (
    #[trigger] after[b]).id by {
        assert(after[a] == list[back(a)]);
        assert(after[b] == list[back(b)]);
        assert(list[back(a)].id != list[back(b)].id);
    }
}

/// A nudge upwards on the last cue exchanges it with the first.
pub proof fn lemma_nudge_wraps(len: int)
    requires
        len > 0,
    ensures
        place_above(len - 1, len) == 0,
        place_below(0, len) == len - 1,
{
    vstd::arithmetic::div_mod::lemma_mod_self_0(len);
    vstd::arithmetic::div_mod::lemma_small_mod((len - 1) as nat, len as nat);
}

} // verus!
