use vstd::prelude::*;

verus! {

/// A guard over a value of type `T` and a cleanup `F` that consumes it.
///
/// The guard gives read and write access to the value (through `Deref` and `DerefMut`) for
/// as long as it lives. It is consumed by exactly one of these:
/// - [`Scope::finish`]: the natural end, where the cleanup runs once, on the value the guard
///   holds at that moment;
/// - [`Scope::forget`]: the cleanup is discarded without running;
/// - [`Scope::into_inner`]: the cleanup is discarded without running and the value is returned;
/// - [`Scope::stack`]: value and cleanup move into a new guard whose cleanup runs an extra
///   step first.
///
/// Since every way out takes the guard by value, the cleanup runs at most once. The guard has no
/// destructor of its own: a destructor must neither unwind nor open invariants, which cannot be
/// shown of an arbitrary cleanup, so a caller that wants the cleanup to run when a scope closes
/// calls [`Scope::finish`] from its own `Drop`.
pub struct Scope<T, F: FnOnce(T)> {
    val: T,
    dtor: F,
}

/// The place of a value, handed on as it is.
fn place<T>(val: &mut T) -> (r: &mut T)
    ensures
        *r == *old(val),
        *final(val) == *final(r),
    no_unwind
{
    val
}

impl<T, F: FnOnce(T)> Scope<T, F> {
    /// The cleanup accepts every value the guard may come to hold.
    #[verifier::type_invariant]
    spec fn callable(&self) -> bool {
        forall|v: T| #[trigger] self.dtor.requires((v,))
    }

    /// The value the guard holds.
    pub closed spec fn value(&self) -> T {
        self.val
    }

    /// The cleanup the guard will run on its value.
    pub closed spec fn cleanup(&self) -> F {
        self.dtor
    }

    /// Guards `val` with the cleanup `dtor`. Nothing runs yet.
    ///
    /// The cleanup must accept every value, since the value may be changed before it runs.
    pub fn new(val: T, dtor: F) -> (r: Self)
        requires
            forall|v: T| #[trigger] dtor.requires((v,)),
        ensures
            r.value() == val,
            r.cleanup() == dtor,
    {
        Scope { val, dtor }
    }

    /// Ends the guard without running the cleanup, and hands back its value and cleanup.
    fn into_parts(self) -> (r: (T, F))
        ensures
            r == (self.value(), self.cleanup()),
            forall|v: T| #[trigger] r.1.requires((v,)),
    {
        proof {
            use_type_invariant(&self);
        }
        let Scope { val, dtor } = self;
        (val, dtor)
    }

    /// The natural end of the guard: runs the cleanup once, on the value the guard holds now.
    pub fn finish(self)
        ensures
            self.cleanup().ensures((self.value(),), ()),
    {
        let (val, dtor) = self.into_parts();
        dtor(val)
    }

    /// Ends the guard without running the cleanup and returns the value it holds.
    pub fn into_inner(self) -> (r: T)
        ensures
            r == self.value(),
    {
        let (value, _dtor) = self.into_parts();
        value
    }

    /// Ends the guard without running the cleanup; the value is dropped as it stands.
    ///
    /// `has_resolved` says that nothing writes through the value any more: whatever it borrows
    /// keeps what the value held last, which a cleanup that ran could have changed.
    pub fn forget(self)
        ensures
            has_resolved(self.value()),
    {
        let (_value, _dtor) = self.into_parts();
    }

    /// Moves value and cleanup into a new guard whose cleanup first runs `dtor` on the value,
    /// through a mutable reference, and then the present cleanup on what `dtor` left.
    ///
    /// Steps stacked later run earlier, as destructors of nested scopes do; only the cleanup
    /// given to [`Scope::new`] takes the value by value, at the very end.
    pub fn stack<NF: FnOnce(&mut T)>(self, dtor: NF) -> (r: Scope<T, impl FnOnce(T)>)
        requires
            forall|m: &mut T| #[trigger] dtor.requires((m,)),
        ensures
            r.value() == self.value(),
            forall|v: T| #[trigger] r.cleanup().ensures((v,), ()) ==> exists|m: &mut T|
                {
                    &&& *m == v
                    &&& dtor.ensures((m,), ())
                    &&& self.cleanup().ensures((*final(m),), ())
                },
    {
        let (value, current) = self.into_parts();
        let composed = move |mut v: T|
            requires
                forall|m: &mut T| #[trigger] dtor.requires((m,)),
                forall|x: T| #[trigger] current.requires((x,)),
            ensures
                exists|m: &mut T|
                    {
                        &&& *m == v
                        &&& dtor.ensures((m,), ())
                        &&& current.ensures((*final(m),), ())
                    },
            {
                dtor(&mut v);
                current(v)
            };
        Scope::new(value, composed)
    }
}

impl<T, F: FnOnce(T)> core::ops::Deref for Scope<T, F> {
    type Target = T;

    /// Read access to the value.
    fn deref(&self) -> (r: &T)
        ensures
            *r == self.value(),
    {
        &self.val
    }
}

impl<T, F: FnOnce(T)> core::ops::DerefMut for Scope<T, F> {
    /// Write access to the value; the cleanup stays as it is.
    fn deref_mut(&mut self) -> (r: &mut T)
        ensures
            *r == old(self).value(),
            final(self).value() == *final(r),
            final(self).cleanup() == old(self).cleanup(),
    {
        proof {
            use_type_invariant(&*self);
        }
        place(&mut self.val)
    }
}

} // verus!
