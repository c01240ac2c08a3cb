//! Counted sharing of a `Vec`: read-only references to the whole of it
//! ([`SharedVec`]), or disjoint parts split off it and written on their own
//! ([`SharedVecMut`]).
use vstd::prelude::*;

use std::sync::Arc;

use crate::handle::{
    allocation_origin, clone_handle, is_zero_sized, release_handle, zero_sized_origin,
};

verus! {

/// The abstract state of a [`SharedVec`].
pub struct SharedVecView<T> {
    /// References handed out and not yet given back.
    pub borrow_count: nat,
    /// Identity of the allocation.
    pub origin: nat,
    /// The elements.
    pub elements: Seq<T>,
}

/// The abstract state of a [`SharedVecRef`].
pub struct SharedVecRefView<T> {
    /// Identity of the allocation the reference reads.
    pub origin: nat,
    /// The elements it reads.
    pub elements: Seq<T>,
}

impl<T> SharedVecView<T> {
    /// Every owner of zero-sized elements has the common zero-sized origin.
    pub open spec fn wf(self) -> bool {
        is_zero_sized::<T>() ==> self.origin == zero_sized_origin::<T>()
    }

    /// The owner after lending one more reference.
    pub open spec fn lent(self) -> Self {
        SharedVecView {
            borrow_count: self.borrow_count + 1,
            origin: self.origin,
            elements: self.elements,
        }
    }

    /// The reference that lending hands out.
    pub open spec fn lend_ref(self) -> SharedVecRefView<T> {
        SharedVecRefView { origin: self.origin, elements: self.elements }
    }

    /// A reference is taken back when it reads the same allocation, has the same
    /// length where the elements are zero-sized, and the owner still has a
    /// reference out.
    pub open spec fn accepts(self, reference: SharedVecRefView<T>) -> bool {
        &&& reference.origin == self.origin
        &&& is_zero_sized::<T>() ==> reference.elements.len() == self.elements.len()
        &&& self.borrow_count > 0
    }

    /// The owner after taking one reference back.
    pub open spec fn reclaimed(self) -> Self {
        SharedVecView {
            borrow_count: (self.borrow_count - 1) as nat,
            origin: self.origin,
            elements: self.elements,
        }
    }
}

impl<T> SharedVecRefView<T> {
    /// A reference to zero-sized elements has the common zero-sized origin.
    pub open spec fn wf(self) -> bool {
        is_zero_sized::<T>() ==> self.origin == zero_sized_origin::<T>()
    }
}

/// How a [`SharedVec`] holds its elements: on its own while nothing has been lent
/// since it was made or last had everything back, behind a counted handle
/// otherwise.
#[derive(Debug)]
enum Holding<T> {
    Sole(Vec<T>),
    Lent(Arc<Vec<T>>),
}

impl<T> Holding<T> {
    spec fn elements(&self) -> Seq<T> {
        match self {
            Holding::Sole(v) => v@,
            Holding::Lent(h) => (**h)@,
        }
    }

    fn as_slice(&self) -> (elements: &[T])
        ensures
            elements@ == self.elements(),
    {
        match self {
            Holding::Sole(v) => v.as_slice(),
            Holding::Lent(h) => (**h).as_slice(),
        }
    }
}

/// Owns a vector and lends out read-only [`SharedVecRef`]s to it, counting the
/// references that have not been given back yet.
#[derive(Debug)]
pub struct SharedVec<T> {
    borrow_count: usize,
    origin: usize,
    anchor: Arc<()>,
    elements: Holding<T>,
}

/// A read-only reference to the elements of a [`SharedVec`], to be given back with
/// [`SharedVec::try_return`].
#[derive(Debug)]
pub struct SharedVecRef<T> {
    origin: usize,
    anchor: Arc<()>,
    elements: Arc<Vec<T>>,
}

impl<T> View for SharedVec<T> {
    type V = SharedVecView<T>;

    closed spec fn view(&self) -> SharedVecView<T> {
        SharedVecView {
            borrow_count: self.borrow_count as nat,
            origin: self.origin as nat,
            elements: self.elements.elements(),
        }
    }
}

impl<T> View for SharedVecRef<T> {
    type V = SharedVecRefView<T>;

    closed spec fn view(&self) -> SharedVecRefView<T> {
        SharedVecRefView { origin: self.origin as nat, elements: (*self.elements)@ }
    }
}

impl<T> SharedVec<T> {
    /// The owner holds its elements on its own: nothing has been lent since it was
    /// made, or since it last had every reference back and no handle to its
    /// elements was left alive.
    pub closed spec fn is_sole(&self) -> bool {
        self.elements is Sole
    }

    /// How many references are out.
    pub(crate) fn borrow_count(&self) -> (count: usize)
        ensures
            count == self@.borrow_count,
    {
        self.borrow_count
    }

    /// Creates a `SharedVec` from a vector, with no reference out.
    pub fn from_vec(vec: Vec<T>) -> (shared: Self)
        ensures
            shared@.borrow_count == 0,
            shared@.elements == vec@,
            shared@.wf(),
            shared.is_sole(),
    {
        let anchor = Arc::new(());
        let origin = allocation_origin::<T, ()>(&anchor);
        SharedVec { borrow_count: 0, origin, anchor, elements: Holding::Sole(vec) }
    }

    /// Hands out one more reference to the elements and counts it.
    pub fn borrow(&mut self) -> (reference: SharedVecRef<T>)
        requires
            old(self)@.borrow_count < usize::MAX,
        ensures
            final(self)@ == old(self)@.lent(),
            reference@ == old(self)@.lend_ref(),
            !final(self).is_sole(),
    {
        let mut holding = Holding::Sole(Vec::new());
        core::mem::swap(&mut holding, &mut self.elements);
        let handle = match holding {
            Holding::Sole(v) => Arc::new(v),
            Holding::Lent(h) => h,
        };
        let copy = clone_handle(&handle);
        self.elements = Holding::Lent(handle);
        self.borrow_count = self.borrow_count + 1;
        SharedVecRef { origin: self.origin, anchor: clone_handle(&self.anchor), elements: copy }
    }

    /// Takes a reference back and uncounts it. A reference of another allocation,
    /// of another length where the elements are zero-sized, or one more than the
    /// owner has out, is handed back in `Err` and nothing changes. When the last
    /// reference comes back, the owner takes its elements back to hold on its own
    /// if no other handle to them is alive.
    pub fn try_return(&mut self, reference: SharedVecRef<T>) -> (returned: Result<
        (),
        SharedVecRef<T>,
    >)
        ensures
            old(self)@.accepts(reference@) ==> returned is Ok && final(self)@
                == old(self)@.reclaimed(),
            !old(self)@.accepts(reference@) ==> returned == Err::<(), SharedVecRef<T>>(reference)
                && final(self)@ == old(self)@ && final(self).is_sole() == old(self).is_sole(),
    {
        if self.origin != reference.origin {
            return Err(reference);
        }
        if core::mem::size_of::<T>() == 0 && self.elements.as_slice().len()
            != reference.elements.len() {
            return Err(reference);
        }
        let count = match self.borrow_count.checked_sub(1) {
            Some(count) => count,
            None => return Err(reference),
        };
        self.borrow_count = count;
        {
            let _given_back = reference;
        }
        if count == 0 {
            self.reclaim();
        }
        Ok(())
    }

    /// Takes the elements back to hold on its own when no other handle to them is
    /// alive; the elements stay the same either way.
    fn reclaim(&mut self)
        ensures
            final(self)@ == old(self)@,
            old(self).is_sole() ==> final(self).is_sole(),
    {
        let mut holding = Holding::Sole(Vec::new());
        core::mem::swap(&mut holding, &mut self.elements);
        self.elements = match holding {
            Holding::Sole(v) => Holding::Sole(v),
            Holding::Lent(h) => match release_handle(h) {
                Ok(v) => Holding::Sole(v),
                Err(h) => Holding::Lent(h),
            },
        };
    }

    /// Turns the owner back into the `Vec` it was made from once every reference
    /// has been given back; an owner that holds its elements on its own always
    /// turns back. While references are out, the owner comes back unchanged in
    /// `Err`. It also comes back in `Err` when a handle to the elements is still
    /// alive elsewhere: for zero-sized elements, after this owner took back another
    /// owner's reference while one of its own is still out.
    pub fn try_into_vec(self) -> (vec: Result<Vec<T>, Self>)
        ensures
            self@.borrow_count > 0 ==> vec is Err,
            self@.borrow_count == 0 && self.is_sole() ==> vec is Ok,
            match vec {
                Ok(v) => self@.borrow_count == 0 && v@ == self@.elements,
                Err(back) => back@ == self@ && back.is_sole() == self.is_sole(),
            },
    {
        if self.borrow_count > 0 {
            return Err(self);
        }
        let SharedVec { borrow_count, origin, anchor, elements } = self;
        match elements {
            Holding::Sole(v) => Ok(v),
            Holding::Lent(h) => match release_handle(h) {
                Ok(v) => Ok(v),
                Err(h) => Err(
                    SharedVec { borrow_count, origin, anchor, elements: Holding::Lent(h) },
                ),
            },
        }
    }

    /// Reads the elements directly.
    pub fn get(&self) -> (elements: &[T])
        ensures
            elements@ == self@.elements,
    {
        self.elements.as_slice()
    }
}

impl<T> SharedVecRef<T> {
    /// Reads the elements the reference was lent.
    pub fn as_slice(&self) -> (elements: &[T])
        ensures
            elements@ == self@.elements,
    {
        (*self.elements).as_slice()
    }
}

/// The abstract state of a [`SharedVecMut`].
pub struct SharedVecMutView<T> {
    /// Parts split off and not yet joined back.
    pub borrow_count: nat,
    /// Identity of the allocation.
    pub origin: nat,
    /// Length of the vector the owner was made from.
    pub len: nat,
    /// Position of the owner's remaining region in that vector.
    pub remain_start: nat,
    /// The elements of the remaining region.
    pub remaining: Seq<T>,
}

/// The abstract state of a [`SharedVecPart`].
pub struct SharedVecPartView<T> {
    /// Identity of the allocation the part was split from.
    pub origin: nat,
    /// Position of the part in the vector it was split from.
    pub start: nat,
    /// The elements of the part.
    pub elements: Seq<T>,
}

impl<T> SharedVecMutView<T> {
    /// The owner of a fresh vector: no part out, all of it remaining.
    pub open spec fn fresh(origin: nat, vec: Seq<T>) -> Self {
        SharedVecMutView {
            borrow_count: 0,
            origin,
            len: vec.len(),
            remain_start: 0,
            remaining: vec,
        }
    }

    /// Zero-sized elements have the common zero-sized origin, and the remaining
    /// region ends at an index a `usize` can hold.
    pub open spec fn wf(self) -> bool {
        &&& is_zero_sized::<T>() ==> self.origin == zero_sized_origin::<T>()
        &&& self.remain_start + self.remaining.len() <= usize::MAX
        &&& self.borrow_count <= usize::MAX
        &&& self.len <= usize::MAX
    }

    /// Index just past the remaining region.
    pub open spec fn remain_end(self) -> nat {
        self.remain_start + self.remaining.len()
    }

    /// Splitting at `at` is refused: `at` lies past the remaining region, or the
    /// count of parts is full.
    pub open spec fn split_refused(self, at: nat) -> bool {
        at > self.remaining.len() || self.borrow_count >= usize::MAX
    }

    /// The owner after splitting off the suffix that starts at `at`.
    pub open spec fn after_split_off(self, at: nat) -> Self {
        SharedVecMutView {
            borrow_count: self.borrow_count + 1,
            remaining: self.remaining.subrange(0, at as int),
            ..self
        }
    }

    /// The suffix split off at `at`.
    pub open spec fn split_off_part(self, at: nat) -> SharedVecPartView<T> {
        SharedVecPartView {
            origin: self.origin,
            start: self.remain_start + at,
            elements: self.remaining.subrange(at as int, self.remaining.len() as int),
        }
    }

    /// The owner after splitting off the prefix that ends at `at`.
    pub open spec fn after_split_to(self, at: nat) -> Self {
        SharedVecMutView {
            borrow_count: self.borrow_count + 1,
            remain_start: self.remain_start + at,
            remaining: self.remaining.subrange(at as int, self.remaining.len() as int),
            ..self
        }
    }

    /// The prefix split off at `at`.
    pub open spec fn split_to_part(self, at: nat) -> SharedVecPartView<T> {
        SharedVecPartView {
            origin: self.origin,
            start: self.remain_start,
            elements: self.remaining.subrange(0, at as int),
        }
    }

    /// A part joins at the end of the remaining region when it comes from the same
    /// allocation, starts where the region ends, and a part is out.
    pub open spec fn accepts_off(self, part: SharedVecPartView<T>) -> bool {
        &&& part.origin == self.origin
        &&& part.start == self.remain_end()
        &&& self.borrow_count > 0
    }

    /// The owner after joining `part` at the end of the remaining region.
    pub open spec fn after_unsplit_off(self, part: SharedVecPartView<T>) -> Self {
        SharedVecMutView {
            borrow_count: (self.borrow_count - 1) as nat,
            remaining: self.remaining + part.elements,
            ..self
        }
    }

    /// A part joins at the front of the remaining region when it comes from the
    /// same allocation, ends where the region starts, and a part is out.
    pub open spec fn accepts_to(self, part: SharedVecPartView<T>) -> bool {
        &&& part.origin == self.origin
        &&& self.remain_start == part.end()
        &&& self.borrow_count > 0
    }

    /// The owner after joining `part` at the front of the remaining region.
    pub open spec fn after_unsplit_to(self, part: SharedVecPartView<T>) -> Self {
        SharedVecMutView {
            borrow_count: (self.borrow_count - 1) as nat,
            remain_start: part.start,
            remaining: part.elements + self.remaining,
            ..self
        }
    }

    /// The owner can turn back into a vector: no part out, the remaining region
    /// starts at the front, and for zero-sized elements it is as long as the
    /// vector the owner was made from.
    pub open spec fn convertible(self) -> bool {
        &&& self.borrow_count == 0
        &&& self.remain_start == 0
        &&& is_zero_sized::<T>() ==> self.remaining.len() == self.len
    }

    /// Index `k` lies in the remaining region.
    pub open spec fn holds(self, k: int) -> bool {
        self.remain_start <= k < self.remain_end()
    }

    /// `parts` are the parts out of this owner, one per count: each comes from
    /// this owner's allocation, no index lies in two of them or in one of them and
    /// the remaining region, and together with that region they cover exactly the
    /// indices of the vector the owner was made from.
    pub open spec fn partitioned_by(self, parts: Seq<SharedVecPartView<T>>) -> bool {
        &&& parts.len() == self.borrow_count
        &&& forall|i: int| 0 <= i < parts.len() ==> #[trigger] parts[i].origin == self.origin
        &&& forall|k: int|
            #![trigger self.holds(k)]
            0 <= k < self.len <==> (self.holds(k) || exists|i: int|
                0 <= i < parts.len() && #[trigger] parts[i].holds(k))
        &&& forall|i: int, k: int|
            0 <= i < parts.len() && #[trigger] parts[i].holds(k) ==> !self.holds(k)
        &&& forall|i: int, j: int, k: int|
            0 <= i < parts.len() && 0 <= j < parts.len() && i != j && #[trigger] parts[i].holds(k)
                ==> !#[trigger] parts[j].holds(k)
    }

    /// The owner with the elements of its remaining region replaced.
    pub open spec fn with_remaining(self, remaining: Seq<T>) -> Self {
        SharedVecMutView { remaining, ..self }
    }
}

impl<T> SharedVecPartView<T> {
    /// Zero-sized elements have the common zero-sized origin, and the part ends at
    /// an index a `usize` can hold.
    pub open spec fn wf(self) -> bool {
        &&& is_zero_sized::<T>() ==> self.origin == zero_sized_origin::<T>()
        &&& self.end() <= usize::MAX
    }

    /// Index just past the part.
    pub open spec fn end(self) -> nat {
        self.start + self.elements.len()
    }

    /// Index `k` lies in the part.
    pub open spec fn holds(self, k: int) -> bool {
        self.start <= k < self.end()
    }

    /// The part with its elements replaced.
    pub open spec fn with_elements(self, elements: Seq<T>) -> Self {
        SharedVecPartView { elements, ..self }
    }
}

/// Owns a vector that can be split into disjoint [`SharedVecPart`]s, each written
/// on its own, and joined back. It keeps the region that is not split off.
#[derive(Debug)]
pub struct SharedVecMut<T> {
    borrow_count: usize,
    origin: usize,
    anchor: Arc<()>,
    len: usize,
    remain_start: usize,
    remaining: Vec<T>,
}

/// A region split off a [`SharedVecMut`], to be joined back with
/// [`SharedVecMut::try_unsplit_off`] or [`SharedVecMut::try_unsplit_to`].
#[derive(Debug)]
pub struct SharedVecPart<T> {
    origin: usize,
    anchor: Arc<()>,
    start: usize,
    elements: Vec<T>,
}

impl<T> View for SharedVecMut<T> {
    type V = SharedVecMutView<T>;

    closed spec fn view(&self) -> SharedVecMutView<T> {
        SharedVecMutView {
            borrow_count: self.borrow_count as nat,
            origin: self.origin as nat,
            len: self.len as nat,
            remain_start: self.remain_start as nat,
            remaining: self.remaining@,
        }
    }
}

impl<T> View for SharedVecPart<T> {
    type V = SharedVecPartView<T>;

    closed spec fn view(&self) -> SharedVecPartView<T> {
        SharedVecPartView {
            origin: self.origin as nat,
            start: self.start as nat,
            elements: self.elements@,
        }
    }
}

impl<T> SharedVecMut<T> {
    /// Creates a `SharedVecMut` from a vector, with all of it remaining.
    pub fn from_vec(vec: Vec<T>) -> (shared: Self)
        ensures
            shared@ == SharedVecMutView::fresh(shared@.origin, vec@),
            shared@.wf(),
    {
        let anchor = Arc::new(());
        let origin = allocation_origin::<T, ()>(&anchor);
        let len = vec.len();
        SharedVecMut { borrow_count: 0, origin, anchor, len, remain_start: 0, remaining: vec }
    }

    /// Splits off the suffix of the remaining region that starts at `at`: the part
    /// holds `[at, len)` of it and the owner keeps `[0, at)`. Returns `None`, and
    /// changes nothing, when `at` lies past the remaining region or the count of
    /// parts is full.
    pub fn split_off(&mut self, at: usize) -> (part: Option<SharedVecPart<T>>)
        requires
            old(self)@.wf(),
        ensures
            old(self)@.split_refused(at as nat) ==> part is None && final(self)@ == old(self)@,
            !old(self)@.split_refused(at as nat) ==> (part matches Some(p) && p@
                == old(self)@.split_off_part(at as nat) && final(self)@
                == old(self)@.after_split_off(at as nat)),
            final(self)@.wf(),
            part matches Some(p) ==> p@.wf(),
    {
        proof {
            if !old(self)@.split_refused(at as nat) {
                lemma_unsplit_off_undoes_split_off(old(self)@, at as nat);
            }
        }
        if at > self.remaining.len() {
            return None;
        }
        let count = match self.borrow_count.checked_add(1) {
            Some(count) => count,
            None => return None,
        };
        self.borrow_count = count;
        let elements = self.remaining.split_off(at);
        Some(
            SharedVecPart {
                origin: self.origin,
                anchor: clone_handle(&self.anchor),
                start: self.remain_start + at,
                elements,
            },
        )
    }

    /// Splits off the prefix of the remaining region that ends at `at`: the part
    /// holds `[0, at)` of it and the owner keeps `[at, len)`. Returns `None`, and
    /// changes nothing, when `at` lies past the remaining region or the count of
    /// parts is full.
    pub fn split_to(&mut self, at: usize) -> (part: Option<SharedVecPart<T>>)
        requires
            old(self)@.wf(),
        ensures
            old(self)@.split_refused(at as nat) ==> part is None && final(self)@ == old(self)@,
            !old(self)@.split_refused(at as nat) ==> (part matches Some(p) && p@
                == old(self)@.split_to_part(at as nat) && final(self)@
                == old(self)@.after_split_to(at as nat)),
            final(self)@.wf(),
            part matches Some(p) ==> p@.wf(),
    {
        proof {
            if !old(self)@.split_refused(at as nat) {
                lemma_unsplit_to_undoes_split_to(old(self)@, at as nat);
            }
        }
        if at > self.remaining.len() {
            return None;
        }
        let count = match self.borrow_count.checked_add(1) {
            Some(count) => count,
            None => return None,
        };
        self.borrow_count = count;
        let last_start = self.remain_start;
        let mut elements = self.remaining.split_off(at);
        core::mem::swap(&mut elements, &mut self.remaining);
        self.remain_start = self.remain_start + at;
        Some(
            SharedVecPart {
                origin: self.origin,
                anchor: clone_handle(&self.anchor),
                start: last_start,
                elements,
            },
        )
    }

    /// Joins back a part split off with [`SharedVecMut::split_off`]: it must come
    /// from this owner's allocation and start where the remaining region ends.
    /// Otherwise, or when no part is out, it is handed back in `Err` and nothing
    /// changes.
    pub fn try_unsplit_off(&mut self, part: SharedVecPart<T>) -> (joined: Result<
        (),
        SharedVecPart<T>,
    >)
        requires
            old(self)@.wf(),
            part@.wf(),
        ensures
            old(self)@.accepts_off(part@) ==> joined is Ok && final(self)@
                == old(self)@.after_unsplit_off(part@),
            !old(self)@.accepts_off(part@) ==> joined == Err::<(), SharedVecPart<T>>(part)
                && final(self)@ == old(self)@,
            final(self)@.wf(),
    {
        proof {
            lemma_unsplit_keeps_wf(old(self)@, part@);
        }
        if self.origin != part.origin {
            return Err(part);
        }
        if part.start != self.remain_start + self.remaining.len() {
            return Err(part);
        }
        let part = match self.consume_part(part) {
            Ok(part) => part,
            Err(part) => return Err(part),
        };
        let SharedVecPart { origin: _, anchor: _, start: _, mut elements } = part;
        self.remaining.append(&mut elements);
        Ok(())
    }

    /// Joins back a part split off with [`SharedVecMut::split_to`]: it must come
    /// from this owner's allocation and end where the remaining region starts.
    /// Otherwise, or when no part is out, it is handed back in `Err` and nothing
    /// changes.
    pub fn try_unsplit_to(&mut self, part: SharedVecPart<T>) -> (joined: Result<
        (),
        SharedVecPart<T>,
    >)
        requires
            old(self)@.wf(),
            part@.wf(),
        ensures
            old(self)@.accepts_to(part@) ==> joined is Ok && final(self)@
                == old(self)@.after_unsplit_to(part@),
            !old(self)@.accepts_to(part@) ==> joined == Err::<(), SharedVecPart<T>>(part)
                && final(self)@ == old(self)@,
            final(self)@.wf(),
    {
        proof {
            lemma_unsplit_keeps_wf(old(self)@, part@);
        }
        if self.origin != part.origin {
            return Err(part);
        }
        if self.remain_start != part.start + part.elements.len() {
            return Err(part);
        }
        let part = match self.consume_part(part) {
            Ok(part) => part,
            Err(part) => return Err(part),
        };
        let SharedVecPart { origin: _, anchor: _, start, mut elements } = part;
        elements.append(&mut self.remaining);
        self.remaining = elements;
        self.remain_start = start;
        Ok(())
    }

    /// Uncounts a part that is being joined back. When no part is out it is
    /// refused; otherwise it is handed back to the caller, which joins its
    /// elements. Only the count changes.
    fn consume_part(&mut self, part: SharedVecPart<T>) -> (consumed: Result<
        SharedVecPart<T>,
        SharedVecPart<T>,
    >)
        ensures
            old(self)@.borrow_count > 0 ==> consumed == Ok::<SharedVecPart<T>, SharedVecPart<T>>(
                part,
            ) && final(self)@ == (SharedVecMutView {
                borrow_count: (old(self)@.borrow_count - 1) as nat,
                ..old(self)@
            }),
            old(self)@.borrow_count == 0 ==> consumed == Err::<SharedVecPart<T>, SharedVecPart<T>>(
                part,
            ) && final(self)@ == old(self)@,
    {
        match self.borrow_count.checked_sub(1) {
            Some(count) => {
                self.borrow_count = count;
                Ok(part)
            },
            None => Err(part),
        }
    }

    /// Whether the owner can turn back into a vector.
    pub(crate) fn can_convert_back(&self) -> (convertible: bool)
        ensures
            convertible == self@.convertible(),
    {
        self.borrow_count == 0 && self.remain_start == 0 && if core::mem::size_of::<T>() == 0 {
            self.remaining.len() == self.len
        } else {
            true
        }
    }

    /// Turns the owner back into a vector of its remaining elements, once every
    /// part is joined back and the remaining region starts at the front; for
    /// zero-sized elements it must also be as long as the vector the owner was made
    /// from. Otherwise the owner comes back unchanged in `Err`.
    pub fn try_into_vec(self) -> (vec: Result<Vec<T>, Self>)
        ensures
            self@.convertible() ==> (vec matches Ok(v) && v@ == self@.remaining),
            !self@.convertible() ==> (vec matches Err(back) && back@ == self@),
    {
        if self.can_convert_back() {
            Ok(self.remaining)
        } else {
            Err(self)
        }
    }

    /// Reads the remaining region.
    pub fn as_slice(&self) -> (elements: &[T])
        ensures
            elements@ == self@.remaining,
    {
        self.remaining.as_slice()
    }

    /// Writes the remaining region in place.
    pub fn as_slice_mut(&mut self) -> (elements: &mut [T])
        ensures
            elements@ == old(self)@.remaining,
            final(self)@ == old(self)@.with_remaining(final(elements)@),
    {
        self.remaining.as_mut_slice()
    }
}

impl<T> SharedVecPart<T> {
    /// Reads the part.
    pub fn as_slice(&self) -> (elements: &[T])
        ensures
            elements@ == self@.elements,
    {
        self.elements.as_slice()
    }

    /// Writes the part in place.
    pub fn as_slice_mut(&mut self) -> (elements: &mut [T])
        ensures
            elements@ == old(self)@.elements,
            final(self)@ == old(self)@.with_elements(final(elements)@),
    {
        self.elements.as_mut_slice()
    }
}

/// Law: a reference just lent is taken back by the owner that lent it, and
/// taking it back restores the owner exactly as it was before lending.
pub proof fn lemma_vec_return_undoes_borrow<T>(owner: SharedVecView<T>)
    requires
        owner.borrow_count < usize::MAX,
    ensures
        owner.lent().accepts(owner.lend_ref()),
        owner.lent().reclaimed() == owner,
        owner.lent().wf() == owner.wf(),
        owner.lend_ref().wf() == owner.wf(),
{
}

/// Law: an owner never takes back a reference of another allocation, whatever
/// its count.
pub proof fn lemma_vec_foreign_ref_refused<T>(
    owner: SharedVecView<T>,
    reference: SharedVecRefView<T>,
)
    requires
        reference.origin != owner.origin,
    ensures
        !owner.accepts(reference),
        !owner.lent().accepts(reference),
{
}

/// Law: an owner never takes back more references than it has out.
pub proof fn lemma_vec_no_return_without_loan<T>(
    owner: SharedVecView<T>,
    reference: SharedVecRefView<T>,
)
    requires
        owner.borrow_count == 0,
    ensures
        !owner.accepts(reference),
{
}

/// Law: for zero-sized elements every reference reads the same address, so an
/// owner takes back a reference of any other owner of the same length, as long as
/// it has a reference out; one of another length it refuses.
pub proof fn lemma_vec_zero_sized_refs_interchange<T>(
    owner: SharedVecView<T>,
    reference: SharedVecRefView<T>,
)
    requires
        is_zero_sized::<T>(),
        owner.wf(),
        reference.wf(),
    ensures
        owner.accepts(reference) <==> (owner.borrow_count > 0 && reference.elements.len()
            == owner.elements.len()),
{
}

/// Law: joining back the suffix just split off restores the owner exactly as it
/// was, and splitting keeps both sides well formed.
pub proof fn lemma_unsplit_off_undoes_split_off<T>(owner: SharedVecMutView<T>, at: nat)
    requires
        owner.wf(),
        !owner.split_refused(at),
    ensures
        owner.after_split_off(at).wf(),
        owner.split_off_part(at).wf(),
        owner.after_split_off(at).accepts_off(owner.split_off_part(at)),
        owner.after_split_off(at).after_unsplit_off(owner.split_off_part(at)) == owner,
{
    assert(owner.remaining.subrange(0, at as int) + owner.remaining.subrange(
        at as int,
        owner.remaining.len() as int,
    ) =~= owner.remaining);
}

/// Law: joining back the prefix just split off restores the owner exactly as it
/// was, and splitting keeps both sides well formed.
pub proof fn lemma_unsplit_to_undoes_split_to<T>(owner: SharedVecMutView<T>, at: nat)
    requires
        owner.wf(),
        !owner.split_refused(at),
    ensures
        owner.after_split_to(at).wf(),
        owner.split_to_part(at).wf(),
        owner.after_split_to(at).accepts_to(owner.split_to_part(at)),
        owner.after_split_to(at).after_unsplit_to(owner.split_to_part(at)) == owner,
{
    assert(owner.remaining.subrange(0, at as int) + owner.remaining.subrange(
        at as int,
        owner.remaining.len() as int,
    ) =~= owner.remaining);
}

/// Law: a suffix split off, rewritten in place to new elements of the same
/// length, joins back where it was split off; the owner then holds its old prefix
/// followed by the new elements, with its count back as before the split.
pub proof fn lemma_rewritten_suffix_rejoins<T>(
    owner: SharedVecMutView<T>,
    at: nat,
    rewritten: Seq<T>,
)
    requires
        owner.wf(),
        !owner.split_refused(at),
        rewritten.len() == owner.split_off_part(at).elements.len(),
    ensures
        owner.split_off_part(at).with_elements(rewritten).wf(),
        owner.after_split_off(at).accepts_off(
            owner.split_off_part(at).with_elements(rewritten),
        ),
        owner.after_split_off(at).after_unsplit_off(
            owner.split_off_part(at).with_elements(rewritten),
        ) == owner.with_remaining(owner.remaining.subrange(0, at as int) + rewritten),
{
}

/// Law: a prefix split off, rewritten in place to new elements of the same
/// length, joins back where it was split off; the owner then holds the new
/// elements followed by its old suffix, with its count and start back as before
/// the split.
pub proof fn lemma_rewritten_prefix_rejoins<T>(
    owner: SharedVecMutView<T>,
    at: nat,
    rewritten: Seq<T>,
)
    requires
        owner.wf(),
        !owner.split_refused(at),
        rewritten.len() == owner.split_to_part(at).elements.len(),
    ensures
        owner.split_to_part(at).with_elements(rewritten).wf(),
        owner.after_split_to(at).accepts_to(
            owner.split_to_part(at).with_elements(rewritten),
        ),
        owner.after_split_to(at).after_unsplit_to(
            owner.split_to_part(at).with_elements(rewritten),
        ) == owner.with_remaining(
            rewritten + owner.remaining.subrange(at as int, owner.remaining.len() as int),
        ),
{
}

/// Law: a split loses no element and overlaps nothing: the part and what the owner
/// keeps are adjacent, and together they are exactly the old remaining region.
pub proof fn lemma_split_partitions_remaining<T>(owner: SharedVecMutView<T>, at: nat)
    requires
        owner.wf(),
        !owner.split_refused(at),
    ensures
        owner.after_split_off(at).remaining + owner.split_off_part(at).elements
            == owner.remaining,
        owner.after_split_off(at).remain_start == owner.remain_start,
        owner.split_off_part(at).start == owner.after_split_off(at).remain_end(),
        owner.split_off_part(at).end() == owner.remain_end(),
        owner.split_to_part(at).elements + owner.after_split_to(at).remaining
            == owner.remaining,
        owner.split_to_part(at).start == owner.remain_start,
        owner.split_to_part(at).end() == owner.after_split_to(at).remain_start,
        owner.after_split_to(at).remain_end() == owner.remain_end(),
{
    assert(owner.remaining.subrange(0, at as int) + owner.remaining.subrange(
        at as int,
        owner.remaining.len() as int,
    ) =~= owner.remaining);
}

/// Law: joining a part keeps the owner well formed, and the joined region covers
/// the part's range together with the old remaining region.
pub proof fn lemma_unsplit_keeps_wf<T>(owner: SharedVecMutView<T>, part: SharedVecPartView<T>)
    requires
        owner.wf(),
        part.wf(),
    ensures
        owner.accepts_off(part) ==> owner.after_unsplit_off(part).wf()
            && owner.after_unsplit_off(part).remain_start == owner.remain_start
            && owner.after_unsplit_off(part).remain_end() == part.end(),
        owner.accepts_to(part) ==> owner.after_unsplit_to(part).wf()
            && owner.after_unsplit_to(part).remain_start == part.start
            && owner.after_unsplit_to(part).remain_end() == owner.remain_end(),
{
}

/// Law: an owner made from a vector, with nothing split off, turns straight back
/// into that vector.
pub proof fn lemma_fresh_converts_back<T>(origin: nat, vec: Seq<T>)
    ensures
        SharedVecMutView::fresh(origin, vec).convertible(),
        SharedVecMutView::fresh(origin, vec).remaining == vec,
{
}

/// Law: an owner never joins a part of another allocation, at either end of its
/// remaining region and whatever its count, even where the part is adjacent.
pub proof fn lemma_foreign_part_refused<T>(
    owner: SharedVecMutView<T>,
    part: SharedVecPartView<T>,
)
    requires
        part.origin != owner.origin,
    ensures
        !owner.accepts_off(part),
        !owner.accepts_to(part),
        forall|at: nat| !owner.split_refused(at) ==> !owner.after_split_off(at).accepts_off(part)
            && !owner.after_split_to(at).accepts_to(part),
{
}

/// Law: an owner never takes back more parts than it has out, and never turns
/// back into a vector while a part is out.
pub proof fn lemma_no_unsplit_without_loan<T>(
    owner: SharedVecMutView<T>,
    part: SharedVecPartView<T>,
)
    ensures
        owner.borrow_count == 0 ==> !owner.accepts_off(part) && !owner.accepts_to(part),
        owner.borrow_count > 0 ==> !owner.convertible(),
{
}

/// Law: for zero-sized elements every part has the same origin, so an owner takes
/// back an adjacent part split off any other owner, as long as it has a part out.
pub proof fn lemma_zero_sized_parts_interchange<T>(
    owner: SharedVecMutView<T>,
    part: SharedVecPartView<T>,
)
    requires
        is_zero_sized::<T>(),
        owner.wf(),
        part.wf(),
    ensures
        owner.accepts_off(part) <==> (owner.borrow_count > 0 && part.start
            == owner.remain_end()),
        owner.accepts_to(part) <==> (owner.borrow_count > 0 && part.end()
            == owner.remain_start),
{
}

} // verus!

verus! {

/// Law: an owner made from a vector is partitioned by no part at all.
pub proof fn lemma_fresh_partitioned<T>(origin: nat, vec: Seq<T>)
    ensures
        SharedVecMutView::fresh(origin, vec).partitioned_by(Seq::empty()),
{
    let owner = SharedVecMutView::<T>::fresh(origin, vec);
    assert forall|k: int|
        0 <= k < owner.len <==> (owner.holds(k) || exists|i: int|
            0 <= i < Seq::<SharedVecPartView<T>>::empty().len() && #[trigger] Seq::<
                SharedVecPartView<T>,
            >::empty()[i].holds(k)) by {}
}

/// Law: splitting off a suffix keeps the partition: the new part joins the parts
/// out, and the owner's region and all parts still cover the vector without
/// overlap.
pub proof fn lemma_split_off_keeps_partition<T>(
    owner: SharedVecMutView<T>,
    parts: Seq<SharedVecPartView<T>>,
    at: nat,
)
    requires
        owner.partitioned_by(parts),
        !owner.split_refused(at),
    ensures
        owner.after_split_off(at).partitioned_by(parts.push(owner.split_off_part(at))),
{
    let new = owner.after_split_off(at);
    let p = owner.split_off_part(at);
    let np = parts.push(p);
    assert forall|i: int| 0 <= i < np.len() implies #[trigger] np[i].origin == new.origin by {
        if i < parts.len() {
            assert(np[i] == parts[i]);
        }
    }
    assert forall|k: int|
        0 <= k < new.len <==> (new.holds(k) || exists|i: int|
            0 <= i < np.len() && #[trigger] np[i].holds(k)) by {
        if 0 <= k < new.len {
            if owner.holds(k) {
                if !new.holds(k) {
                    assert(np[parts.len() as int].holds(k));
                }
            } else {
                let i = choose|i: int| 0 <= i < parts.len() && #[trigger] parts[i].holds(k);
                assert(np[i] == parts[i]);
                assert(np[i].holds(k));
            }
        }
        if new.holds(k) {
            assert(owner.holds(k));
        }
        if exists|i: int| 0 <= i < np.len() && #[trigger] np[i].holds(k) {
            let i = choose|i: int| 0 <= i < np.len() && #[trigger] np[i].holds(k);
            if i < parts.len() {
                assert(np[i] == parts[i]);
                assert(parts[i].holds(k));
            } else {
                assert(owner.holds(k));
            }
        }
    }
    assert forall|i: int, k: int|
        0 <= i < np.len() && #[trigger] np[i].holds(k) implies !new.holds(k) by {
        if i < parts.len() {
            assert(np[i] == parts[i]);
            assert(parts[i].holds(k));
        }
    }
    assert forall|i: int, j: int, k: int|
        0 <= i < np.len() && 0 <= j < np.len() && i != j
            && #[trigger] np[i].holds(k) implies !#[trigger] np[j].holds(k) by {
        if i < parts.len() {
            assert(np[i] == parts[i]);
        }
        if j < parts.len() {
            assert(np[j] == parts[j]);
        }
        if i < parts.len() && j < parts.len() {
            assert(parts[i].holds(k));
            if parts[j].holds(k) {
                assert(false);
            }
        } else if i < parts.len() {
            assert(parts[i].holds(k));
        } else {
            if np[j].holds(k) {
                assert(parts[j].holds(k));
                assert(owner.holds(k));
            }
        }
    }
}

/// Law: splitting off a prefix keeps the partition: the new part joins the parts
/// out, and the owner's region and all parts still cover the vector without
/// overlap.
pub proof fn lemma_split_to_keeps_partition<T>(
    owner: SharedVecMutView<T>,
    parts: Seq<SharedVecPartView<T>>,
    at: nat,
)
    requires
        owner.partitioned_by(parts),
        !owner.split_refused(at),
    ensures
        owner.after_split_to(at).partitioned_by(parts.push(owner.split_to_part(at))),
{
    let new = owner.after_split_to(at);
    let p = owner.split_to_part(at);
    let np = parts.push(p);
    assert forall|i: int| 0 <= i < np.len() implies #[trigger] np[i].origin == new.origin by {
        if i < parts.len() {
            assert(np[i] == parts[i]);
        }
    }
    assert forall|k: int|
        0 <= k < new.len <==> (new.holds(k) || exists|i: int|
            0 <= i < np.len() && #[trigger] np[i].holds(k)) by {
        if 0 <= k < new.len {
            if owner.holds(k) {
                if !new.holds(k) {
                    assert(np[parts.len() as int].holds(k));
                }
            } else {
                let i = choose|i: int| 0 <= i < parts.len() && #[trigger] parts[i].holds(k);
                assert(np[i] == parts[i]);
                assert(np[i].holds(k));
            }
        }
        if new.holds(k) {
            assert(owner.holds(k));
        }
        if exists|i: int| 0 <= i < np.len() && #[trigger] np[i].holds(k) {
            let i = choose|i: int| 0 <= i < np.len() && #[trigger] np[i].holds(k);
            if i < parts.len() {
                assert(np[i] == parts[i]);
                assert(parts[i].holds(k));
            } else {
                assert(owner.holds(k));
            }
        }
    }
    assert forall|i: int, k: int|
        0 <= i < np.len() && #[trigger] np[i].holds(k) implies !new.holds(k) by {
        if i < parts.len() {
            assert(np[i] == parts[i]);
            assert(parts[i].holds(k));
        }
    }
    assert forall|i: int, j: int, k: int|
        0 <= i < np.len() && 0 <= j < np.len() && i != j
            && #[trigger] np[i].holds(k) implies !#[trigger] np[j].holds(k) by {
        if i < parts.len() {
            assert(np[i] == parts[i]);
        }
        if j < parts.len() {
            assert(np[j] == parts[j]);
        }
        if i < parts.len() && j < parts.len() {
            assert(parts[i].holds(k));
            if parts[j].holds(k) {
                assert(false);
            }
        } else if i < parts.len() {
            assert(parts[i].holds(k));
        } else {
            if np[j].holds(k) {
                assert(parts[j].holds(k));
                assert(owner.holds(k));
            }
        }
    }
}

/// Law: joining back at the end of the remaining region one of the parts out
/// keeps the partition, with that part no longer out.
pub proof fn lemma_unsplit_off_keeps_partition<T>(
    owner: SharedVecMutView<T>,
    parts: Seq<SharedVecPartView<T>>,
    n: int,
)
    requires
        owner.partitioned_by(parts),
        0 <= n < parts.len(),
        owner.accepts_off(parts[n]),
    ensures
        owner.after_unsplit_off(parts[n]).partitioned_by(parts.remove(n)),
{
    lemma_unsplit_keeps_partition(owner, parts, n, owner.after_unsplit_off(parts[n]));
}

/// Law: joining back at the front of the remaining region one of the parts out
/// keeps the partition, with that part no longer out.
pub proof fn lemma_unsplit_to_keeps_partition<T>(
    owner: SharedVecMutView<T>,
    parts: Seq<SharedVecPartView<T>>,
    n: int,
)
    requires
        owner.partitioned_by(parts),
        0 <= n < parts.len(),
        owner.accepts_to(parts[n]),
    ensures
        owner.after_unsplit_to(parts[n]).partitioned_by(parts.remove(n)),
{
    lemma_unsplit_keeps_partition(owner, parts, n, owner.after_unsplit_to(parts[n]));
}

/// Joining part `n` into the owner's region, whichever side, keeps the
/// partition when the joined region holds exactly the old region and the part.
proof fn lemma_unsplit_keeps_partition<T>(
    owner: SharedVecMutView<T>,
    parts: Seq<SharedVecPartView<T>>,
    n: int,
    new: SharedVecMutView<T>,
)
    requires
        owner.partitioned_by(parts),
        0 <= n < parts.len(),
        new.borrow_count == owner.borrow_count - 1,
        new.origin == owner.origin,
        new.len == owner.len,
        forall|k: int| new.holds(k) <==> (owner.holds(k) || parts[n].holds(k)),
    ensures
        new.partitioned_by(parts.remove(n)),
{
    let np = parts.remove(n);
    assert forall|j: int| 0 <= j < np.len() implies np[j] == parts[if j < n {
        j
    } else {
        j + 1
    }] by {}
    assert forall|j: int| 0 <= j < np.len() implies #[trigger] np[j].origin == new.origin by {
        if j < n {
            assert(np[j] == parts[j]);
        } else {
            assert(np[j] == parts[j + 1]);
        }
    }
    assert forall|k: int|
        0 <= k < new.len <==> (new.holds(k) || exists|i: int|
            0 <= i < np.len() && #[trigger] np[i].holds(k)) by {
        if 0 <= k < new.len && !new.holds(k) {
            assert(!owner.holds(k));
            let i = choose|i: int| 0 <= i < parts.len() && #[trigger] parts[i].holds(k);
            assert(i != n);
            if i < n {
                assert(np[i] == parts[i]);
                assert(np[i].holds(k));
            } else {
                assert(np[i - 1] == parts[i]);
                assert(np[i - 1].holds(k));
            }
        }
        if new.holds(k) {
            if !owner.holds(k) {
                assert(parts[n].holds(k));
            }
        }
        if exists|i: int| 0 <= i < np.len() && #[trigger] np[i].holds(k) {
            let i = choose|i: int| 0 <= i < np.len() && #[trigger] np[i].holds(k);
            if i < n {
                assert(np[i] == parts[i]);
                assert(parts[i].holds(k));
            } else {
                assert(np[i] == parts[i + 1]);
                assert(parts[i + 1].holds(k));
            }
        }
    }
    assert forall|i: int, k: int|
        0 <= i < np.len() && #[trigger] np[i].holds(k) implies !new.holds(k) by {
        let m = if i < n {
            i
        } else {
            i + 1
        };
        assert(np[i] == parts[m]);
        assert(parts[m].holds(k));
        assert(m != n);
        assert(!owner.holds(k));
        assert(!parts[n].holds(k));
    }
    assert forall|i: int, j: int, k: int|
        0 <= i < np.len() && 0 <= j < np.len() && i != j
            && #[trigger] np[i].holds(k) implies !#[trigger] np[j].holds(k) by {
        let mi = if i < n {
            i
        } else {
            i + 1
        };
        let mj = if j < n {
            j
        } else {
            j + 1
        };
        assert(np[i] == parts[mi]);
        assert(np[j] == parts[mj]);
        assert(parts[mi].holds(k));
        if parts[mj].holds(k) {
            assert(false);
        }
    }
}

/// Law: once no part is out and the remaining region starts at the front, the
/// partition leaves the region covering the whole vector the owner was made
/// from: nothing is lost.
pub proof fn lemma_partition_returns_whole<T>(
    owner: SharedVecMutView<T>,
    parts: Seq<SharedVecPartView<T>>,
)
    requires
        owner.partitioned_by(parts),
        owner.borrow_count == 0,
        owner.remain_start == 0,
    ensures
        owner.remaining.len() == owner.len,
        owner.convertible(),
{
    if owner.remaining.len() < owner.len {
        let k = owner.remaining.len() as int;
        assert(!owner.holds(k));
    }
    if owner.remaining.len() > owner.len {
        let k = owner.len as int;
        assert(owner.holds(k));
    }
}

} // verus!
