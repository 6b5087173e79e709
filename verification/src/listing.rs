//! Lists of things that carry an identifier: exchanging two of them and
//! taking out those with a given identifier.

use crate::dmx_types::{AudioTrack, Fixture, FixtureGroup};
use vstd::prelude::*;

verus! {

/// Something with an identifier.
pub trait Keyed {
    /// The identifier.
    spec fn key(&self) -> u32;

    fn get_key(&self) -> (k: u32)
        ensures
            k == self.key(),
    ;
}

impl Keyed for Fixture {
    open spec fn key(&self) -> u32 {
        self.id
    }

    fn get_key(&self) -> (k: u32) {
        self.id
    }
}

impl Keyed for FixtureGroup {
    open spec fn key(&self) -> u32 {
        self.id
    }

    fn get_key(&self) -> (k: u32) {
        self.id
    }
}

impl Keyed for AudioTrack {
    open spec fn key(&self) -> u32 {
        self.id
    }

    fn get_key(&self) -> (k: u32) {
        self.id
    }
}

/// The things with another identifier than `id`.
pub open spec fn not_keyed<T: Keyed>(id: u32) -> spec_fn(T) -> bool {
    |t: T| t.key() != id
}

/// `s` without the things that have the identifier `id`.
pub open spec fn without_key<T: Keyed>(s: Seq<T>, id: u32) -> Seq<T> {
    s.filter(not_keyed(id))
}

/// `s` with the things at `i` and `j` exchanged.
pub open spec fn exchanged_places<T>(s: Seq<T>, i: int, j: int) -> Seq<T> {
    s.update(i, s[j]).update(j, s[i])
}

/// Exchanges the things at `i` and `j`.
pub fn swap_items<T>(v: &mut Vec<T>, i: usize, j: usize)
    requires
        i < old(v)@.len(),
        j < old(v)@.len(),
    ensures
        final(v)@ == exchanged_places(old(v)@, i as int, j as int),
{
    if i == j {
        assert(v@ =~= exchanged_places(v@, i as int, j as int));
        return ;
    }
    let (low, high) = if i < j {
        (i, j)
    } else {
        (j, i)
    };
    let upper = v.remove(high);
    let lower = v.remove(low);
    v.insert(low, upper);
    v.insert(high, lower);
    assert(v@ =~= exchanged_places(old(v)@, i as int, j as int));
}

/// Takes out every thing with the identifier `id`; the others keep their
/// order.
pub fn remove_keyed<T: Keyed>(v: &mut Vec<T>, id: u32)
    ensures
        final(v)@ == without_key(old(v)@, id),
{
    let ghost before = v@;
    let ghost mut done: int = 0;
    let mut i: usize = 0;
    proof {
        reveal(Seq::filter);
        assert(before.take(0).filter(not_keyed::<T>(id)) =~= Seq::<T>::empty());
        assert(before.skip(0) =~= before);
    }
    while i < v.len()
        invariant
            0 <= done <= before.len(),
            i == before.take(done).filter(not_keyed::<T>(id)).len(),
            v@ == before.take(done).filter(not_keyed::<T>(id)) + before.skip(done),
        decreases before.len() - done,
    {
        proof {
            reveal(Seq::filter);
            assert(before.take(done + 1).drop_last() =~= before.take(done));
            assert(before.take(done + 1).last() == before[done]);
            assert(v@[i as int] == before.skip(done)[0]);
        }
        if v[i].get_key() == id {
            v.remove(i);
            assert(v@ =~= before.take(done + 1).filter(not_keyed::<T>(id)) + before.skip(done + 1));
        } else {
            assert(v@ =~= before.take(done + 1).filter(not_keyed::<T>(id)) + before.skip(done + 1));
            i = i + 1;
        }
        proof {
            done = done + 1;
        }
    }
    proof {
        assert(before.skip(done).len() == 0);
        assert(before.take(done) =~= before);
        assert(v@ =~= without_key(before, id));
    }
}

} // verus!
