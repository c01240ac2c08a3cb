//! Scoped sharing: turn a value into its shared form, run a closure on it, and
//! turn it back.
use vstd::prelude::*;

use crate::shared_box::SharedBox;
use crate::shared_vec::{SharedVec, SharedVecMut, SharedVecMutView};

verus! {

/// A value with a shared form that it can be turned into and back from.
///
/// Used on a `Vec`, a `Box`, a [`VecShareMut`], or a tuple of mutable references
/// to such values, all of them turned at once.
pub trait Scope: Sized {
    /// The shared form.
    type Shared;

    /// `create_shared` took `before`, left `after` in its place and made `shared`.
    spec fn creates(before: Self, after: Self, shared: Self::Shared) -> bool;

    /// `shared` can be turned back: everything lent from it has come back.
    spec fn restorable(shared: Self::Shared) -> bool;

    /// `set_from_shared` turned `shared` back, over `before`, into `after`.
    spec fn restores(before: Self, shared: Self::Shared, after: Self) -> bool;

    /// Whether `shared` can be turned back now.
    fn is_restorable(shared: &Self::Shared) -> (restorable: bool)
        ensures
            restorable == Self::restorable(*shared),
    ;

    /// Creates the shared form of the value; the value itself is left empty or
    /// default.
    fn create_shared(&mut self) -> (shared: Self::Shared)
        ensures
            Self::creates(*old(self), *final(self), shared),
    ;

    /// Turns the shared form back into the value. Everything lent from it must have
    /// come back.
    fn set_from_shared(&mut self, shared: Self::Shared)
        requires
            Self::restorable(shared),
        ensures
            Self::restores(*old(self), shared, *final(self)),
    ;

    /// Creates the shared form, runs `f` on it, and turns it back; returns what `f`
    /// returned. `f` must give back everything it lends from the shared form.
    fn scope<R, F: FnOnce(&mut Self::Shared) -> R>(&mut self, f: F) -> (ret: R)
        requires
            forall|mid: Self, s: &mut Self::Shared|
                Self::creates(*old(self), mid, *s) ==> f.requires((s,)),
            forall|mid: Self, s: &mut Self::Shared, r: R|
                Self::creates(*old(self), mid, *s) && f.ensures((s,), r) ==> Self::restorable(
                    *final(s),
                ),
        ensures
            exists|mid: Self, s: &mut Self::Shared|
                {
                    &&& Self::creates(*old(self), mid, *s)
                    &&& f.ensures((s,), ret)
                    &&& Self::restores(mid, *final(s), *final(self))
                },
    {
        let mut shared = self.create_shared();
        let ret = f(&mut shared);
        self.set_from_shared(shared);
        ret
    }
}

impl<T> Scope for Vec<T> {
    type Shared = SharedVec<T>;

    open spec fn creates(before: Self, after: Self, shared: Self::Shared) -> bool {
        &&& after@ == Seq::<T>::empty()
        &&& shared@.borrow_count == 0
        &&& shared@.elements == before@
        &&& shared@.wf()
        &&& shared.is_sole()
    }

    open spec fn restorable(shared: Self::Shared) -> bool {
        shared@.borrow_count == 0
    }

    /// The vector gets the shared elements back. Only when the shared form does
    /// not hold them on its own, because another handle to them is still alive,
    /// may it keep what it held instead.
    open spec fn restores(before: Self, shared: Self::Shared, after: Self) -> bool {
        after@ == shared@.elements || (after == before && !shared.is_sole())
    }

    fn is_restorable(shared: &Self::Shared) -> (restorable: bool) {
        shared.borrow_count() == 0
    }

    fn create_shared(&mut self) -> (shared: Self::Shared) {
        let mut v: Vec<T> = Vec::new();
        core::mem::swap(&mut v, self);
        let shared = SharedVec::from_vec(v);
        let ghost after = *self;
        assert(after@ =~= Seq::<T>::empty());
        assert(Self::creates(*old(self), after, shared));
        shared
    }

    fn set_from_shared(&mut self, shared: Self::Shared) {
        let ghost kept = shared;
        match shared.try_into_vec() {
            Ok(v) => {
                *self = v;
            },
            Err(_) => {},
        }
        let ghost after = *self;
        assert(Self::restores(*old(self), kept, after));
    }
}

impl<T: Default> Scope for Box<T> {
    type Shared = SharedBox<T>;

    open spec fn creates(before: Self, after: Self, shared: Self::Shared) -> bool {
        &&& T::default.ensures((), *after)
        &&& shared@.borrow_count == 0
        &&& shared@.value == *before
        &&& shared@.wf()
    }

    open spec fn restorable(shared: Self::Shared) -> bool {
        shared@.borrow_count == 0
    }

    /// The box gets the shared value back; when another handle to it is still
    /// alive, it keeps what it held.
    open spec fn restores(before: Self, shared: Self::Shared, after: Self) -> bool {
        *after == shared@.value || after == before
    }

    fn is_restorable(shared: &Self::Shared) -> (restorable: bool) {
        shared.borrow_count() == 0
    }

    fn create_shared(&mut self) -> (shared: Self::Shared) {
        let mut b: Box<T> = <Box<T> as Default>::default();
        core::mem::swap(&mut b, self);
        let shared = SharedBox::from_box(b);
        let ghost after = *self;
        assert(Self::creates(*old(self), after, shared));
        shared
    }

    fn set_from_shared(&mut self, shared: Self::Shared) {
        let ghost kept = shared;
        match shared.try_into_box() {
            Ok(b) => {
                *self = b;
            },
            Err(_) => {},
        }
        let ghost after = *self;
        assert(Self::restores(*old(self), kept, after));
    }
}

/// A mutable reference to a `Vec` whose shared form is a [`SharedVecMut`], so that
/// it can be split into parts written on their own.
pub struct VecShareMut<'a, T>(pub &'a mut Vec<T>);

impl<'a, T> Scope for VecShareMut<'a, T> {
    type Shared = SharedVecMut<T>;

    open spec fn creates(before: Self, after: Self, shared: Self::Shared) -> bool {
        &&& (*after.0)@ == Seq::<T>::empty()
        &&& shared@ == SharedVecMutView::fresh(shared@.origin, (*before.0)@)
        &&& shared@.wf()
    }

    open spec fn restorable(shared: Self::Shared) -> bool {
        shared@.convertible()
    }

    open spec fn restores(before: Self, shared: Self::Shared, after: Self) -> bool {
        (*after.0)@ == shared@.remaining
    }

    fn is_restorable(shared: &Self::Shared) -> (restorable: bool) {
        shared.can_convert_back()
    }

    fn create_shared(&mut self) -> (shared: Self::Shared) {
        let mut v: Vec<T> = Vec::new();
        core::mem::swap(&mut v, self.0);
        let shared = SharedVecMut::from_vec(v);
        let ghost after = *self;
        assert((*after.0)@ =~= Seq::<T>::empty());
        assert(Self::creates(*old(self), after, shared));
        shared
    }

    fn set_from_shared(&mut self, shared: Self::Shared) {
        let ghost kept = shared;
        match shared.try_into_vec() {
            Ok(v) => {
                *self.0 = v;
            },
            Err(_) => {},
        }
        let ghost after = *self;
        assert(Self::restores(*old(self), kept, after));
    }
}

impl<'a1, T1: Scope> Scope for (&'a1 mut T1,) {
    type Shared = (T1::Shared,);

    open spec fn creates(before: Self, after: Self, shared: Self::Shared) -> bool {
        &&& T1::creates(*before.0, *after.0, shared.0)
    }

    fn is_restorable(shared: &Self::Shared) -> (restorable: bool) {
        T1::is_restorable(&shared.0)
    }

    open spec fn restorable(shared: Self::Shared) -> bool {
        &&& T1::restorable(shared.0)
    }

    open spec fn restores(before: Self, shared: Self::Shared, after: Self) -> bool {
        &&& T1::restores(*before.0, shared.0, *after.0)
    }

    fn create_shared(&mut self) -> (shared: Self::Shared) {
        let shared = (self.0.create_shared(),);
        let ghost after = *self;
        assert(Self::creates(*old(self), after, shared));
        shared
    }

    fn set_from_shared(&mut self, shared: Self::Shared) {
        let ghost kept = shared;
        self.0.set_from_shared(shared.0);
        let ghost after = *self;
        assert(Self::restores(*old(self), kept, after));
    }
}

impl<'a1, 'a2, T1: Scope, T2: Scope> Scope for (&'a1 mut T1, &'a2 mut T2) {
    type Shared = (T1::Shared, T2::Shared);

    open spec fn creates(before: Self, after: Self, shared: Self::Shared) -> bool {
        &&& T1::creates(*before.0, *after.0, shared.0)
        &&& T2::creates(*before.1, *after.1, shared.1)
    }

    fn is_restorable(shared: &Self::Shared) -> (restorable: bool) {
        T1::is_restorable(&shared.0) && T2::is_restorable(&shared.1)
    }

    open spec fn restorable(shared: Self::Shared) -> bool {
        &&& T1::restorable(shared.0)
        &&& T2::restorable(shared.1)
    }

    open spec fn restores(before: Self, shared: Self::Shared, after: Self) -> bool {
        &&& T1::restores(*before.0, shared.0, *after.0)
        &&& T2::restores(*before.1, shared.1, *after.1)
    }

    fn create_shared(&mut self) -> (shared: Self::Shared) {
        let shared = (self.0.create_shared(), self.1.create_shared());
        let ghost after = *self;
        assert(Self::creates(*old(self), after, shared));
        shared
    }

    fn set_from_shared(&mut self, shared: Self::Shared) {
        let ghost kept = shared;
        self.0.set_from_shared(shared.0);
        self.1.set_from_shared(shared.1);
        let ghost after = *self;
        assert(Self::restores(*old(self), kept, after));
    }
}

impl<
    'a1,
    'a2,
    'a3,
    T1: Scope,
    T2: Scope,
    T3: Scope,
> Scope for (
    &'a1 mut T1,
    &'a2 mut T2,
    &'a3 mut T3,
) {
    type Shared = (T1::Shared, T2::Shared, T3::Shared);

    open spec fn creates(before: Self, after: Self, shared: Self::Shared) -> bool {
        &&& T1::creates(*before.0, *after.0, shared.0)
        &&& T2::creates(*before.1, *after.1, shared.1)
        &&& T3::creates(*before.2, *after.2, shared.2)
    }

    fn is_restorable(shared: &Self::Shared) -> (restorable: bool) {
        T1::is_restorable(&shared.0)
            && T2::is_restorable(&shared.1)
            && T3::is_restorable(&shared.2)
    }

    open spec fn restorable(shared: Self::Shared) -> bool {
        &&& T1::restorable(shared.0)
        &&& T2::restorable(shared.1)
        &&& T3::restorable(shared.2)
    }

    open spec fn restores(before: Self, shared: Self::Shared, after: Self) -> bool {
        &&& T1::restores(*before.0, shared.0, *after.0)
        &&& T2::restores(*before.1, shared.1, *after.1)
        &&& T3::restores(*before.2, shared.2, *after.2)
    }

    fn create_shared(&mut self) -> (shared: Self::Shared) {
        let shared = (self.0.create_shared(), self.1.create_shared(), self.2.create_shared());
        let ghost after = *self;
        assert(Self::creates(*old(self), after, shared));
        shared
    }

    fn set_from_shared(&mut self, shared: Self::Shared) {
        let ghost kept = shared;
        self.0.set_from_shared(shared.0);
        self.1.set_from_shared(shared.1);
        self.2.set_from_shared(shared.2);
        let ghost after = *self;
        assert(Self::restores(*old(self), kept, after));
    }
}

impl<
    'a1,
    'a2,
    'a3,
    'a4,
    T1: Scope,
    T2: Scope,
    T3: Scope,
    T4: Scope,
> Scope for (
    &'a1 mut T1,
    &'a2 mut T2,
    &'a3 mut T3,
    &'a4 mut T4,
) {
    type Shared = (T1::Shared, T2::Shared, T3::Shared, T4::Shared);

    open spec fn creates(before: Self, after: Self, shared: Self::Shared) -> bool {
        &&& T1::creates(*before.0, *after.0, shared.0)
        &&& T2::creates(*before.1, *after.1, shared.1)
        &&& T3::creates(*before.2, *after.2, shared.2)
        &&& T4::creates(*before.3, *after.3, shared.3)
    }

    fn is_restorable(shared: &Self::Shared) -> (restorable: bool) {
        T1::is_restorable(&shared.0)
            && T2::is_restorable(&shared.1)
            && T3::is_restorable(&shared.2)
            && T4::is_restorable(&shared.3)
    }

    open spec fn restorable(shared: Self::Shared) -> bool {
        &&& T1::restorable(shared.0)
        &&& T2::restorable(shared.1)
        &&& T3::restorable(shared.2)
        &&& T4::restorable(shared.3)
    }

    open spec fn restores(before: Self, shared: Self::Shared, after: Self) -> bool {
        &&& T1::restores(*before.0, shared.0, *after.0)
        &&& T2::restores(*before.1, shared.1, *after.1)
        &&& T3::restores(*before.2, shared.2, *after.2)
        &&& T4::restores(*before.3, shared.3, *after.3)
    }

    fn create_shared(&mut self) -> (shared: Self::Shared) {
        let shared = (
            self.0.create_shared(),
            self.1.create_shared(),
            self.2.create_shared(),
            self.3.create_shared(),
        );
        let ghost after = *self;
        assert(Self::creates(*old(self), after, shared));
        shared
    }

    fn set_from_shared(&mut self, shared: Self::Shared) {
        let ghost kept = shared;
        self.0.set_from_shared(shared.0);
        self.1.set_from_shared(shared.1);
        self.2.set_from_shared(shared.2);
        self.3.set_from_shared(shared.3);
        let ghost after = *self;
        assert(Self::restores(*old(self), kept, after));
    }
}

impl<
    'a1,
    'a2,
    'a3,
    'a4,
    'a5,
    T1: Scope,
    T2: Scope,
    T3: Scope,
    T4: Scope,
    T5: Scope,
> Scope for (
    &'a1 mut T1,
    &'a2 mut T2,
    &'a3 mut T3,
    &'a4 mut T4,
    &'a5 mut T5,
) {
    type Shared = (T1::Shared, T2::Shared, T3::Shared, T4::Shared, T5::Shared);

    open spec fn creates(before: Self, after: Self, shared: Self::Shared) -> bool {
        &&& T1::creates(*before.0, *after.0, shared.0)
        &&& T2::creates(*before.1, *after.1, shared.1)
        &&& T3::creates(*before.2, *after.2, shared.2)
        &&& T4::creates(*before.3, *after.3, shared.3)
        &&& T5::creates(*before.4, *after.4, shared.4)
    }

    fn is_restorable(shared: &Self::Shared) -> (restorable: bool) {
        T1::is_restorable(&shared.0)
            && T2::is_restorable(&shared.1)
            && T3::is_restorable(&shared.2)
            && T4::is_restorable(&shared.3)
            && T5::is_restorable(&shared.4)
    }

    open spec fn restorable(shared: Self::Shared) -> bool {
        &&& T1::restorable(shared.0)
        &&& T2::restorable(shared.1)
        &&& T3::restorable(shared.2)
        &&& T4::restorable(shared.3)
        &&& T5::restorable(shared.4)
    }

    open spec fn restores(before: Self, shared: Self::Shared, after: Self) -> bool {
        &&& T1::restores(*before.0, shared.0, *after.0)
        &&& T2::restores(*before.1, shared.1, *after.1)
        &&& T3::restores(*before.2, shared.2, *after.2)
        &&& T4::restores(*before.3, shared.3, *after.3)
        &&& T5::restores(*before.4, shared.4, *after.4)
    }

    fn create_shared(&mut self) -> (shared: Self::Shared) {
        let shared = (
            self.0.create_shared(),
            self.1.create_shared(),
            self.2.create_shared(),
            self.3.create_shared(),
            self.4.create_shared(),
        );
        let ghost after = *self;
        assert(Self::creates(*old(self), after, shared));
        shared
    }

    fn set_from_shared(&mut self, shared: Self::Shared) {
        let ghost kept = shared;
        self.0.set_from_shared(shared.0);
        self.1.set_from_shared(shared.1);
        self.2.set_from_shared(shared.2);
        self.3.set_from_shared(shared.3);
        self.4.set_from_shared(shared.4);
        let ghost after = *self;
        assert(Self::restores(*old(self), kept, after));
    }
}

impl<
    'a1,
    'a2,
    'a3,
    'a4,
    'a5,
    'a6,
    T1: Scope,
    T2: Scope,
    T3: Scope,
    T4: Scope,
    T5: Scope,
    T6: Scope,
> Scope for (
    &'a1 mut T1,
    &'a2 mut T2,
    &'a3 mut T3,
    &'a4 mut T4,
    &'a5 mut T5,
    &'a6 mut T6,
) {
    type Shared = (T1::Shared, T2::Shared, T3::Shared, T4::Shared, T5::Shared, T6::Shared);

    open spec fn creates(before: Self, after: Self, shared: Self::Shared) -> bool {
        &&& T1::creates(*before.0, *after.0, shared.0)
        &&& T2::creates(*before.1, *after.1, shared.1)
        &&& T3::creates(*before.2, *after.2, shared.2)
        &&& T4::creates(*before.3, *after.3, shared.3)
        &&& T5::creates(*before.4, *after.4, shared.4)
        &&& T6::creates(*before.5, *after.5, shared.5)
    }

    fn is_restorable(shared: &Self::Shared) -> (restorable: bool) {
        T1::is_restorable(&shared.0)
            && T2::is_restorable(&shared.1)
            && T3::is_restorable(&shared.2)
            && T4::is_restorable(&shared.3)
            && T5::is_restorable(&shared.4)
            && T6::is_restorable(&shared.5)
    }

    open spec fn restorable(shared: Self::Shared) -> bool {
        &&& T1::restorable(shared.0)
        &&& T2::restorable(shared.1)
        &&& T3::restorable(shared.2)
        &&& T4::restorable(shared.3)
        &&& T5::restorable(shared.4)
        &&& T6::restorable(shared.5)
    }

    open spec fn restores(before: Self, shared: Self::Shared, after: Self) -> bool {
        &&& T1::restores(*before.0, shared.0, *after.0)
        &&& T2::restores(*before.1, shared.1, *after.1)
        &&& T3::restores(*before.2, shared.2, *after.2)
        &&& T4::restores(*before.3, shared.3, *after.3)
        &&& T5::restores(*before.4, shared.4, *after.4)
        &&& T6::restores(*before.5, shared.5, *after.5)
    }

    fn create_shared(&mut self) -> (shared: Self::Shared) {
        let shared = (
            self.0.create_shared(),
            self.1.create_shared(),
            self.2.create_shared(),
            self.3.create_shared(),
            self.4.create_shared(),
            self.5.create_shared(),
        );
        let ghost after = *self;
        assert(Self::creates(*old(self), after, shared));
        shared
    }

    fn set_from_shared(&mut self, shared: Self::Shared) {
        let ghost kept = shared;
        self.0.set_from_shared(shared.0);
        self.1.set_from_shared(shared.1);
        self.2.set_from_shared(shared.2);
        self.3.set_from_shared(shared.3);
        self.4.set_from_shared(shared.4);
        self.5.set_from_shared(shared.5);
        let ghost after = *self;
        assert(Self::restores(*old(self), kept, after));
    }
}

impl<
    'a1,
    'a2,
    'a3,
    'a4,
    'a5,
    'a6,
    'a7,
    T1: Scope,
    T2: Scope,
    T3: Scope,
    T4: Scope,
    T5: Scope,
    T6: Scope,
    T7: Scope,
> Scope for (
    &'a1 mut T1,
    &'a2 mut T2,
    &'a3 mut T3,
    &'a4 mut T4,
    &'a5 mut T5,
    &'a6 mut T6,
    &'a7 mut T7,
) {
    type Shared = (
        T1::Shared,
        T2::Shared,
        T3::Shared,
        T4::Shared,
        T5::Shared,
        T6::Shared,
        T7::Shared,
    );

    open spec fn creates(before: Self, after: Self, shared: Self::Shared) -> bool {
        &&& T1::creates(*before.0, *after.0, shared.0)
        &&& T2::creates(*before.1, *after.1, shared.1)
        &&& T3::creates(*before.2, *after.2, shared.2)
        &&& T4::creates(*before.3, *after.3, shared.3)
        &&& T5::creates(*before.4, *after.4, shared.4)
        &&& T6::creates(*before.5, *after.5, shared.5)
        &&& T7::creates(*before.6, *after.6, shared.6)
    }

    fn is_restorable(shared: &Self::Shared) -> (restorable: bool) {
        T1::is_restorable(&shared.0)
            && T2::is_restorable(&shared.1)
            && T3::is_restorable(&shared.2)
            && T4::is_restorable(&shared.3)
            && T5::is_restorable(&shared.4)
            && T6::is_restorable(&shared.5)
            && T7::is_restorable(&shared.6)
    }

    open spec fn restorable(shared: Self::Shared) -> bool {
        &&& T1::restorable(shared.0)
        &&& T2::restorable(shared.1)
        &&& T3::restorable(shared.2)
        &&& T4::restorable(shared.3)
        &&& T5::restorable(shared.4)
        &&& T6::restorable(shared.5)
        &&& T7::restorable(shared.6)
    }

    open spec fn restores(before: Self, shared: Self::Shared, after: Self) -> bool {
        &&& T1::restores(*before.0, shared.0, *after.0)
        &&& T2::restores(*before.1, shared.1, *after.1)
        &&& T3::restores(*before.2, shared.2, *after.2)
        &&& T4::restores(*before.3, shared.3, *after.3)
        &&& T5::restores(*before.4, shared.4, *after.4)
        &&& T6::restores(*before.5, shared.5, *after.5)
        &&& T7::restores(*before.6, shared.6, *after.6)
    }

    fn create_shared(&mut self) -> (shared: Self::Shared) {
        let shared = (
            self.0.create_shared(),
            self.1.create_shared(),
            self.2.create_shared(),
            self.3.create_shared(),
            self.4.create_shared(),
            self.5.create_shared(),
            self.6.create_shared(),
        );
        let ghost after = *self;
        assert(Self::creates(*old(self), after, shared));
        shared
    }

    fn set_from_shared(&mut self, shared: Self::Shared) {
        let ghost kept = shared;
        self.0.set_from_shared(shared.0);
        self.1.set_from_shared(shared.1);
        self.2.set_from_shared(shared.2);
        self.3.set_from_shared(shared.3);
        self.4.set_from_shared(shared.4);
        self.5.set_from_shared(shared.5);
        self.6.set_from_shared(shared.6);
        let ghost after = *self;
        assert(Self::restores(*old(self), kept, after));
    }
}

impl<
    'a1,
    'a2,
    'a3,
    'a4,
    'a5,
    'a6,
    'a7,
    'a8,
    T1: Scope,
    T2: Scope,
    T3: Scope,
    T4: Scope,
    T5: Scope,
    T6: Scope,
    T7: Scope,
    T8: Scope,
> Scope for (
    &'a1 mut T1,
    &'a2 mut T2,
    &'a3 mut T3,
    &'a4 mut T4,
    &'a5 mut T5,
    &'a6 mut T6,
    &'a7 mut T7,
    &'a8 mut T8,
) {
    type Shared = (
        T1::Shared,
        T2::Shared,
        T3::Shared,
        T4::Shared,
        T5::Shared,
        T6::Shared,
        T7::Shared,
        T8::Shared,
    );

    open spec fn creates(before: Self, after: Self, shared: Self::Shared) -> bool {
        &&& T1::creates(*before.0, *after.0, shared.0)
        &&& T2::creates(*before.1, *after.1, shared.1)
        &&& T3::creates(*before.2, *after.2, shared.2)
        &&& T4::creates(*before.3, *after.3, shared.3)
        &&& T5::creates(*before.4, *after.4, shared.4)
        &&& T6::creates(*before.5, *after.5, shared.5)
        &&& T7::creates(*before.6, *after.6, shared.6)
        &&& T8::creates(*before.7, *after.7, shared.7)
    }

    fn is_restorable(shared: &Self::Shared) -> (restorable: bool) {
        T1::is_restorable(&shared.0)
            && T2::is_restorable(&shared.1)
            && T3::is_restorable(&shared.2)
            && T4::is_restorable(&shared.3)
            && T5::is_restorable(&shared.4)
            && T6::is_restorable(&shared.5)
            && T7::is_restorable(&shared.6)
            && T8::is_restorable(&shared.7)
    }

    open spec fn restorable(shared: Self::Shared) -> bool {
        &&& T1::restorable(shared.0)
        &&& T2::restorable(shared.1)
        &&& T3::restorable(shared.2)
        &&& T4::restorable(shared.3)
        &&& T5::restorable(shared.4)
        &&& T6::restorable(shared.5)
        &&& T7::restorable(shared.6)
        &&& T8::restorable(shared.7)
    }

    open spec fn restores(before: Self, shared: Self::Shared, after: Self) -> bool {
        &&& T1::restores(*before.0, shared.0, *after.0)
        &&& T2::restores(*before.1, shared.1, *after.1)
        &&& T3::restores(*before.2, shared.2, *after.2)
        &&& T4::restores(*before.3, shared.3, *after.3)
        &&& T5::restores(*before.4, shared.4, *after.4)
        &&& T6::restores(*before.5, shared.5, *after.5)
        &&& T7::restores(*before.6, shared.6, *after.6)
        &&& T8::restores(*before.7, shared.7, *after.7)
    }

    fn create_shared(&mut self) -> (shared: Self::Shared) {
        let shared = (
            self.0.create_shared(),
            self.1.create_shared(),
            self.2.create_shared(),
            self.3.create_shared(),
            self.4.create_shared(),
            self.5.create_shared(),
            self.6.create_shared(),
            self.7.create_shared(),
        );
        let ghost after = *self;
        assert(Self::creates(*old(self), after, shared));
        shared
    }

    fn set_from_shared(&mut self, shared: Self::Shared) {
        let ghost kept = shared;
        self.0.set_from_shared(shared.0);
        self.1.set_from_shared(shared.1);
        self.2.set_from_shared(shared.2);
        self.3.set_from_shared(shared.3);
        self.4.set_from_shared(shared.4);
        self.5.set_from_shared(shared.5);
        self.6.set_from_shared(shared.6);
        self.7.set_from_shared(shared.7);
        let ghost after = *self;
        assert(Self::restores(*old(self), kept, after));
    }
}

} // verus!
