//! A `Box` whose value can be lent out, read-only, to several holders at once.
//!
//! The owner counts the references it has handed out; each one must come back
//! before the owner turns back into a `Box`.
use vstd::prelude::*;

use std::sync::Arc;

use crate::handle::{
    allocation_origin, clone_handle, is_zero_sized, release_handle, zero_sized_origin,
};

verus! {

/// The abstract state of a [`SharedBox`].
pub struct SharedBoxView<T> {
    /// References handed out and not yet given back.
    pub borrow_count: nat,
    /// Identity of the allocation.
    pub origin: nat,
    /// The value in the box.
    pub value: T,
}

/// The abstract state of a [`SharedBoxRef`].
pub struct SharedBoxRefView<T> {
    /// Identity of the allocation the reference reads.
    pub origin: nat,
    /// The value it reads.
    pub value: T,
}

impl<T> SharedBoxView<T> {
    /// Every owner of a zero-sized value has the common zero-sized origin.
    pub open spec fn wf(self) -> bool {
        is_zero_sized::<T>() ==> self.origin == zero_sized_origin::<T>()
    }

    /// The owner after lending one more reference.
    pub open spec fn lent(self) -> Self {
        SharedBoxView {
            borrow_count: self.borrow_count + 1,
            origin: self.origin,
            value: self.value,
        }
    }

    /// The reference that lending hands out.
    pub open spec fn lend_ref(self) -> SharedBoxRefView<T> {
        SharedBoxRefView { origin: self.origin, value: self.value }
    }

    /// A reference is taken back when it reads the same allocation and the owner
    /// still has a reference out.
    pub open spec fn accepts(self, reference: SharedBoxRefView<T>) -> bool {
        reference.origin == self.origin && self.borrow_count > 0
    }

    /// The owner after taking one reference back.
    pub open spec fn reclaimed(self) -> Self {
        SharedBoxView {
            borrow_count: (self.borrow_count - 1) as nat,
            origin: self.origin,
            value: self.value,
        }
    }
}

impl<T> SharedBoxRefView<T> {
    /// A reference to a zero-sized value has the common zero-sized origin.
    pub open spec fn wf(self) -> bool {
        is_zero_sized::<T>() ==> self.origin == zero_sized_origin::<T>()
    }
}

/// Owns a value and lends out read-only [`SharedBoxRef`]s to it, counting the
/// references that have not been given back yet.
#[derive(Debug)]
pub struct SharedBox<T> {
    borrow_count: usize,
    origin: usize,
    value: Arc<Box<T>>,
}

/// A read-only reference to the value of a [`SharedBox`], to be given back with
/// [`SharedBox::try_return`].
#[derive(Debug)]
pub struct SharedBoxRef<T> {
    origin: usize,
    value: Arc<Box<T>>,
}

impl<T> View for SharedBox<T> {
    type V = SharedBoxView<T>;

    closed spec fn view(&self) -> SharedBoxView<T> {
        SharedBoxView {
            borrow_count: self.borrow_count as nat,
            origin: self.origin as nat,
            value: **self.value,
        }
    }
}

impl<T> View for SharedBoxRef<T> {
    type V = SharedBoxRefView<T>;

    closed spec fn view(&self) -> SharedBoxRefView<T> {
        SharedBoxRefView { origin: self.origin as nat, value: **self.value }
    }
}

impl<T> SharedBox<T> {
    /// How many references are out.
    pub(crate) fn borrow_count(&self) -> (count: usize)
        ensures
            count == self@.borrow_count,
    {
        self.borrow_count
    }

    /// Creates a `SharedBox` holding `value`, with no reference out.
    pub fn new(value: T) -> (shared: Self)
        ensures
            shared@.borrow_count == 0,
            shared@.value == value,
            shared@.wf(),
    {
        Self::from_box(Box::new(value))
    }

    /// Creates a `SharedBox` from the value of a `Box`, with no reference out.
    pub fn from_box(unique: Box<T>) -> (shared: Self)
        ensures
            shared@.borrow_count == 0,
            shared@.value == *unique,
            shared@.wf(),
    {
        let value = Arc::new(unique);
        let origin = allocation_origin::<T, Box<T>>(&value);
        SharedBox { borrow_count: 0, origin, value }
    }

    /// Hands out one more reference to the value and counts it.
    pub fn borrow(&mut self) -> (reference: SharedBoxRef<T>)
        requires
            old(self)@.borrow_count < usize::MAX,
        ensures
            final(self)@ == old(self)@.lent(),
            reference@ == old(self)@.lend_ref(),
    {
        self.borrow_count = self.borrow_count + 1;
        SharedBoxRef { origin: self.origin, value: clone_handle(&self.value) }
    }

    /// Takes a reference back and uncounts it. A reference of another allocation,
    /// or one more than the owner has out, is handed back in `Err` and nothing
    /// changes.
    pub fn try_return(&mut self, reference: SharedBoxRef<T>) -> (returned: Result<
        (),
        SharedBoxRef<T>,
    >)
        ensures
            old(self)@.accepts(reference@) ==> returned is Ok && final(self)@
                == old(self)@.reclaimed(),
            !old(self)@.accepts(reference@) ==> returned == Err::<(), SharedBoxRef<T>>(reference)
                && final(self)@ == old(self)@,
    {
        if self.origin != reference.origin {
            return Err(reference);
        }
        match self.borrow_count.checked_sub(1) {
            Some(count) => {
                self.borrow_count = count;
                Ok(())
            },
            None => Err(reference),
        }
    }

    /// Turns the owner back into the `Box` it was made from once every reference
    /// has been given back. While references are out, the owner comes back
    /// unchanged in `Err`. It also comes back in `Err` when a handle to the value is
    /// still alive elsewhere: for a zero-sized type, after this owner took back
    /// another owner's reference while one of its own is still out.
    pub fn try_into_box(self) -> (unique: Result<Box<T>, Self>)
        ensures
            self@.borrow_count > 0 ==> unique is Err,
            match unique {
                Ok(b) => self@.borrow_count == 0 && *b == self@.value,
                Err(back) => back@ == self@,
            },
    {
        if self.borrow_count > 0 {
            return Err(self);
        }
        let SharedBox { borrow_count, origin, value } = self;
        match release_handle(value) {
            Ok(unique) => Ok(unique),
            Err(value) => Err(SharedBox { borrow_count, origin, value }),
        }
    }

    /// Reads the value directly.
    pub fn get(&self) -> (value: &T)
        ensures
            *value == self@.value,
    {
        &**self.value
    }
}

impl<T> SharedBoxRef<T> {
    /// Reads the value the reference was lent.
    pub fn get(&self) -> (value: &T)
        ensures
            *value == self@.value,
    {
        &**self.value
    }
}

/// Law: a reference just lent is taken back by the owner that lent it, and
/// taking it back restores the owner exactly as it was before lending.
pub proof fn lemma_return_undoes_borrow<T>(owner: SharedBoxView<T>)
    requires
        owner.borrow_count < usize::MAX,
    ensures
        owner.lent().accepts(owner.lend_ref()),
        owner.lent().reclaimed() == owner,
{
}

/// Law: an owner never takes back a reference of another allocation, whatever
/// its count.
pub proof fn lemma_foreign_ref_refused<T>(owner: SharedBoxView<T>, reference: SharedBoxRefView<T>)
    requires
        reference.origin != owner.origin,
    ensures
        !owner.accepts(reference),
        !owner.lent().accepts(reference),
{
}

/// Law: an owner never takes back more references than it has out.
pub proof fn lemma_no_return_without_loan<T>(
    owner: SharedBoxView<T>,
    reference: SharedBoxRefView<T>,
)
    requires
        owner.borrow_count == 0,
    ensures
        !owner.accepts(reference),
{
}

/// Law: for a zero-sized type every reference reads the same address, so any owner
/// takes back a reference of any other owner, as long as it has a reference out.
pub proof fn lemma_zero_sized_refs_interchange<T>(
    owner: SharedBoxView<T>,
    reference: SharedBoxRefView<T>,
)
    requires
        is_zero_sized::<T>(),
        owner.wf(),
        reference.wf(),
    ensures
        owner.accepts(reference) <==> owner.borrow_count > 0,
{
}

/// Law: lending and taking back keep the value and the origin of the owner.
pub proof fn lemma_loans_keep_value<T>(owner: SharedBoxView<T>)
    ensures
        owner.lent().value == owner.value,
        owner.lent().origin == owner.origin,
        owner.lent().wf() == owner.wf(),
        owner.reclaimed().value == owner.value,
        owner.reclaimed().origin == owner.origin,
        owner.reclaimed().wf() == owner.wf(),
        owner.lend_ref().wf() == owner.wf(),
{
}

} // verus!
