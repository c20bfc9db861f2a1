//! Small inline vectors of entity ids, backed by `smallvec::SmallVec`.
//!
//! Verus does not accept a declaration of `SmallVec` itself (its generic
//! parameter is bounded by smallvec's `Array` trait), so each inline
//! capacity that the minds use is held in a private field of a struct of
//! this module. Each method marked `external_body` makes one call into
//! smallvec and is trusted to meet its contract; the others are verified
//! over them.

use smallvec::SmallVec;
use vstd::prelude::*;

verus! {

/// The largest length at which a push is known not to hit smallvec's
/// "capacity overflow" panic for the item types of this module, on 32-bit
/// and 64-bit targets alike.
pub open spec fn push_room(len: nat) -> bool {
    len < 0x100_0000
}

/// A `SmallVec<[u64; 4]>` of entity ids.
#[verifier::external_body]
pub struct Ids4 {
    inner: SmallVec<[u64; 4]>,
}

/// The ids held by an [`Ids4`], in order.
pub uninterp spec fn ids4_items(v: Ids4) -> Seq<u64>;

impl View for Ids4 {
    type V = Seq<u64>;

    open spec fn view(&self) -> Seq<u64> {
        ids4_items(*self)
    }
}

impl Ids4 {
    /// `SmallVec::new`: an empty vector.
    #[verifier::external_body]
    pub(crate) fn new() -> (r: Ids4)
        ensures
            ids4_items(r) == Seq::<u64>::empty(),
    {
        Ids4 { inner: SmallVec::new() }
    }

    /// `SmallVec::push`: appends the id at the end.
    #[verifier::external_body]
    pub(crate) fn push(&mut self, x: u64)
        requires
            push_room(ids4_items(*old(self)).len()),
        ensures
            ids4_items(*final(self)) == ids4_items(*old(self)).push(x),
    {
        self.inner.push(x)
    }

    /// `SmallVec::len`: the number of ids held.
    #[verifier::external_body]
    pub(crate) fn len(&self) -> (r: usize)
        ensures
            r == ids4_items(*self).len(),
    {
        self.inner.len()
    }

    /// Indexing a `SmallVec`: the id at position `i`.
    #[verifier::external_body]
    pub(crate) fn get(&self, i: usize) -> (r: u64)
        requires
            i < ids4_items(*self).len(),
        ensures
            r == ids4_items(*self)[i as int],
    {
        self.inner[i]
    }

    /// Indexing a `SmallVec` mutably: replaces the id at position `i`.
    #[verifier::external_body]
    pub(crate) fn set(&mut self, i: usize, x: u64)
        requires
            i < ids4_items(*old(self)).len(),
        ensures
            ids4_items(*final(self)) == ids4_items(*old(self)).update(i as int, x),
    {
        self.inner[i] = x;
    }

    /// `SmallVec::drain` over the whole range: hands out every id, in order,
    /// and leaves the vector empty.
    #[verifier::external_body]
    pub(crate) fn drain_all(&mut self) -> (r: Vec<u64>)
        ensures
            r@ == ids4_items(*old(self)),
            ids4_items(*final(self)) == Seq::<u64>::empty(),
    {
        let len = self.inner.len();
        self.inner.drain(0..len).collect()
    }

    /// `SmallVec::clone`: a vector holding the same ids.
    #[verifier::external_body]
    pub(crate) fn clone_ids(&self) -> (r: Ids4)
        ensures
            ids4_items(r) == ids4_items(*self),
    {
        Ids4 { inner: self.inner.clone() }
    }

    /// `SmallVec::from_vec`: a vector holding the ids of `v`, in order.
    #[verifier::external_body]
    pub(crate) fn from_vec(v: Vec<u64>) -> (r: Ids4)
        ensures
            ids4_items(r) == v@,
    {
        Ids4 { inner: SmallVec::from_vec(v) }
    }

    /// The ids, in order, in a plain vector.
    pub fn to_vec(&self) -> (r: Vec<u64>)
        ensures
            r@ == self@,
    {
        let mut out: Vec<u64> = Vec::new();
        let mut ii: usize = 0;
        while ii < self.len()
            invariant
                ii <= self@.len(),
                out@ == self@.subrange(0, ii as int),
            decreases self@.len() - ii,
        {
            out.push(self.get(ii));
            assert(self@.subrange(0, ii + 1) =~= self@.subrange(0, ii as int).push(self@[ii as int]));
            ii = ii + 1;
        }
        assert(self@.subrange(0, self@.len() as int) =~= self@);
        out
    }
}

/// A `SmallVec<[u64; 8]>` of entity ids.
#[verifier::external_body]
pub struct Ids8 {
    inner: SmallVec<[u64; 8]>,
}

/// The ids held by an [`Ids8`], in order.
pub uninterp spec fn ids8_items(v: Ids8) -> Seq<u64>;

impl View for Ids8 {
    type V = Seq<u64>;

    open spec fn view(&self) -> Seq<u64> {
        ids8_items(*self)
    }
}

impl Ids8 {
    /// `SmallVec::new`: an empty vector.
    #[verifier::external_body]
    pub(crate) fn new() -> (r: Ids8)
        ensures
            ids8_items(r) == Seq::<u64>::empty(),
    {
        Ids8 { inner: SmallVec::new() }
    }

    /// `SmallVec::push`: appends the id at the end.
    #[verifier::external_body]
    pub(crate) fn push(&mut self, x: u64)
        requires
            push_room(ids8_items(*old(self)).len()),
        ensures
            ids8_items(*final(self)) == ids8_items(*old(self)).push(x),
    {
        self.inner.push(x)
    }

    /// `SmallVec::len`: the number of ids held.
    #[verifier::external_body]
    pub(crate) fn len(&self) -> (r: usize)
        ensures
            r == ids8_items(*self).len(),
    {
        self.inner.len()
    }

    /// Indexing a `SmallVec`: the id at position `i`.
    #[verifier::external_body]
    pub(crate) fn get(&self, i: usize) -> (r: u64)
        requires
            i < ids8_items(*self).len(),
        ensures
            r == ids8_items(*self)[i as int],
    {
        self.inner[i]
    }

    /// `SmallVec::swap_remove`: removes the id at `i`, putting the last id in its place.
    #[verifier::external_body]
    pub(crate) fn swap_remove(&mut self, i: usize) -> (r: u64)
        requires
            i < ids8_items(*old(self)).len(),
        ensures
            r == ids8_items(*old(self))[i as int],
            ids8_items(*final(self)) == ids8_items(*old(self)).update(i as int, ids8_items(*old(self)).last()).drop_last(),
    {
        self.inner.swap_remove(i)
    }


}


/// A `SmallVec<[u64; 2]>` of entity ids.
#[verifier::external_body]
pub struct Ids2 {
    inner: SmallVec<[u64; 2]>,
}

/// The ids held by an [`Ids2`], in order.
pub uninterp spec fn ids2_items(v: Ids2) -> Seq<u64>;

impl View for Ids2 {
    type V = Seq<u64>;

    open spec fn view(&self) -> Seq<u64> {
        ids2_items(*self)
    }
}

impl Ids2 {
    /// `SmallVec::new`: an empty vector.
    #[verifier::external_body]
    pub(crate) fn new() -> (r: Ids2)
        ensures
            ids2_items(r) == Seq::<u64>::empty(),
    {
        Ids2 { inner: SmallVec::new() }
    }

    /// `SmallVec::push`: appends the id at the end.
    #[verifier::external_body]
    pub(crate) fn push(&mut self, x: u64)
        requires
            push_room(ids2_items(*old(self)).len()),
        ensures
            ids2_items(*final(self)) == ids2_items(*old(self)).push(x),
    {
        self.inner.push(x)
    }

    /// `SmallVec::len`: the number of ids held.
    #[verifier::external_body]
    pub(crate) fn len(&self) -> (r: usize)
        ensures
            r == ids2_items(*self).len(),
    {
        self.inner.len()
    }

    /// Indexing a `SmallVec`: the id at position `i`.
    #[verifier::external_body]
    pub(crate) fn get(&self, i: usize) -> (r: u64)
        requires
            i < ids2_items(*self).len(),
        ensures
            r == ids2_items(*self)[i as int],
    {
        self.inner[i]
    }


}


/// A `SmallVec<[(u64, u64); 2]>` of entity ids paired with a code.
#[verifier::external_body]
pub struct Pairs2 {
    inner: SmallVec<[(u64, u64); 2]>,
}

/// The pairs held by a [`Pairs2`], in order.
pub uninterp spec fn pairs2_items(v: Pairs2) -> Seq<(u64, u64)>;

impl View for Pairs2 {
    type V = Seq<(u64, u64)>;

    open spec fn view(&self) -> Seq<(u64, u64)> {
        pairs2_items(*self)
    }
}

impl Pairs2 {
    /// `SmallVec::new`: an empty vector.
    #[verifier::external_body]
    pub(crate) fn new() -> (r: Pairs2)
        ensures
            pairs2_items(r) == Seq::<(u64, u64)>::empty(),
    {
        Pairs2 { inner: SmallVec::new() }
    }

    /// `SmallVec::push`: appends the pair at the end.
    #[verifier::external_body]
    pub(crate) fn push(&mut self, x: (u64, u64))
        requires
            push_room(pairs2_items(*old(self)).len()),
        ensures
            pairs2_items(*final(self)) == pairs2_items(*old(self)).push(x),
    {
        self.inner.push(x)
    }

    /// `SmallVec::len`: the number of pairs held.
    #[verifier::external_body]
    pub(crate) fn len(&self) -> (r: usize)
        ensures
            r == pairs2_items(*self).len(),
    {
        self.inner.len()
    }

    /// `SmallVec::drain` over the whole range: hands out every pair, in
    /// order, and leaves the vector empty.
    #[verifier::external_body]
    pub(crate) fn drain_all(&mut self) -> (r: Vec<(u64, u64)>)
        ensures
            r@ == pairs2_items(*old(self)),
            pairs2_items(*final(self)) == Seq::<(u64, u64)>::empty(),
    {
        let len = self.inner.len();
        self.inner.drain(0..len).collect()
    }
}

} // verus!
