//! Plain-value stand-ins for the engine's handles.
//!
//! An `EntityId` is the `u64` that `bevy::ecs::entity::Entity::to_bits`
//! gives for an entity; a `KindId` stands for the `TypeId` of a routine,
//! strategy or weapon parameter component, and a `ClassId` for a weapon
//! class name. The engine-side code hands these ids to the library and
//! maps them back.

use vstd::prelude::*;

verus! {

/// An entity, as the bits of a `bevy` `Entity`.
pub type EntityId = u64;

/// The kind of a steering routine, strategy or weapon.
pub type KindId = u64;

/// A weapon class.
pub type ClassId = u64;

/// Whether `x` occurs in `s` first at position `i`.
pub open spec fn is_first_index(s: Seq<u64>, x: u64, i: int) -> bool {
    &&& 0 <= i < s.len()
    &&& s[i] == x
    &&& forall|j: int| 0 <= j < i ==> s[j] != x
}

/// The position of the first occurrence of `x` in `s` (meaningful when `s` holds `x`).
pub open spec fn first_index(s: Seq<u64>, x: u64) -> int {
    choose|i: int| is_first_index(s, x, i)
}

/// `s` with its first occurrence of `x` swap-removed: the last item takes
/// its place and the sequence shrinks by one. `s` itself when it lacks `x`.
pub open spec fn swap_remove_first(s: Seq<u64>, x: u64) -> Seq<u64> {
    if s.contains(x) {
        let i = first_index(s, x);
        s.update(i, s.last()).drop_last()
    } else {
        s
    }
}

/// Finds the first occurrence of `x` in `list` and swap-removes it.
pub fn remove_first(list: &mut Vec<u64>, x: u64)
    ensures
        final(list)@ == swap_remove_first(old(list)@, x),
{
    let len = list.len();
    let mut ii: usize = 0;
    while ii < len
        invariant
            len == list.len(),
            list@ == old(list)@,
            ii <= len,
            forall|j: int| 0 <= j < ii ==> list@[j] != x,
        decreases len - ii,
    {
        if list[ii] == x {
            assert(is_first_index(list@, x, ii as int));
            assert(list@.contains(x));
            assert(first_index(list@, x) == ii as int);
            list.swap_remove(ii);
            return;
        }
        ii = ii + 1;
    }
    assert(!list@.contains(x));
}

/// Swap-removing `e` from `l.push(e)` gives back `l` when `l` lacks `e`.
pub proof fn lemma_swap_remove_pushed(l: Seq<u64>, e: u64)
    requires
        !l.contains(e),
    ensures
        swap_remove_first(l.push(e), e) == l,
{
    let l2 = l.push(e);
    assert(is_first_index(l2, e, l.len() as int)) by {
        assert forall|j: int| 0 <= j < l.len() implies l2[j] != e by {
            assert(l2[j] == l[j]);
        }
    }
    assert(l2.contains(e)) by {
        assert(l2[l.len() as int] == e);
    }
    assert(first_index(l2, e) == l.len());
    assert(l2.update(l.len() as int, l2.last()).drop_last() =~= l);
}

/// Swap-removing `x` from a sequence without repeats drops exactly `x`
/// from its items and repeats none.
pub proof fn lemma_swap_remove_first_items(s: Seq<u64>, x: u64)
    requires
        s.no_duplicates(),
    ensures
        swap_remove_first(s, x).to_set() == s.to_set().remove(x),
        swap_remove_first(s, x).no_duplicates(),
{
    if s.contains(x) {
        let p = choose|p: int| 0 <= p < s.len() && s[p] == x;
        assert(is_first_index(s, x, p)) by {
            assert forall|j: int| 0 <= j < p implies s[j] != x by {
                assert(s[j] != s[p]);
            }
        }
        let i = first_index(s, x);
        assert(i == p);
        let l = s.len() - 1;
        let s2 = swap_remove_first(s, x);
        assert(s2 == s.update(i, s.last()).drop_last());
        assert(forall|j: int| 0 <= j < s2.len() ==> s2[j] == (if j == i { s[l] } else { s[j] }));
        assert forall|y: u64| s2.to_set().contains(y) <==> s.to_set().remove(x).contains(y) by {
            if s2.to_set().contains(y) {
                let j = choose|j: int| 0 <= j < s2.len() && s2[j] == y;
                let pj = if j == i { l } else { j };
                assert(s[pj] == y);
                assert(s.contains(y));
                assert(pj != i);
                assert(s[pj] != s[i]);
            }
            if s.to_set().remove(x).contains(y) {
                let k = choose|k: int| 0 <= k < s.len() && s[k] == y;
                assert(k != i);
                if k < l {
                    assert(s2[k] == y);
                } else {
                    assert(s2[i] == y);
                }
            }
        }
        assert(s2.to_set() =~= s.to_set().remove(x));
        assert forall|a: int, b: int| 0 <= a < s2.len() && 0 <= b < s2.len() && a != b implies s2[a] != s2[b] by {
            let pa = if a == i { l } else { a };
            let pb = if b == i { l } else { b };
            assert(s2[a] == s[pa] && s2[b] == s[pb]);
            assert(s[pa] != s[pb]);
        }
    } else {
        assert(s.to_set().remove(x) =~= s.to_set());
    }
}

} // verus!
