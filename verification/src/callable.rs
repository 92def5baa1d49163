//! Caller-supplied callables and the type-erased slot that stores them.
//!
//! A behavior or a predicate is arbitrary caller code, and a slot hides the
//! static type of what it holds. Neither is visible to the verifier, so this
//! module is the boundary of what is proved: the three types here are opaque,
//! and every function marked `external_body` is assumed to do what its
//! comment says.
//!
//! The types are opaque because what they hold cannot be written in verified
//! code: a `dyn FnMut(I) -> O`, a `dyn Fn(&I) -> bool` and a `dyn Any`.

use vstd::prelude::*;

verus! {

/// An owned callable from packed arguments to a return value.
///
/// Holds a `Box<dyn FnMut(I) -> O>`. The captured state of the callable lives
/// in this value and nowhere else, so every invocation sees what the previous
/// ones left behind.
#[verifier::external_body]
#[verifier::reject_recursive_types(I)]
#[verifier::reject_recursive_types(O)]
pub(crate) struct Behavior<I, O> {
    run: Box<dyn FnMut(I) -> O>,
}

/// An owned test on packed arguments.
///
/// Holds a `Box<dyn Fn(&I) -> bool>`.
#[verifier::external_body]
#[verifier::reject_recursive_types(I)]
pub(crate) struct Predicate<I> {
    test: Box<dyn Fn(&I) -> bool>,
}

/// A value whose static type has been forgotten.
///
/// Holds a `Box<dyn Any>`; the value can only be reached again by a downcast
/// to the type it was stored with.
#[verifier::external_body]
pub struct Erased {
    inner: Box<dyn core::any::Any>,
}

impl<I, O> Behavior<I, O> {
    /// Boxes `f` with `Box::new`. Nothing is claimed about the result.
    #[verifier::external_body]
    pub(crate) fn new<F: FnMut(I) -> O + 'static>(f: F) -> (b: Self) {
        Behavior { run: Box::new(f) }
    }

    /// Calls the boxed callable through `FnMut::call_mut`. What it returns and
    /// how it changes its own state is up to the callable, so no postcondition
    /// is stated.
    #[verifier::external_body]
    pub(crate) fn invoke(&mut self, args: I) -> (out: O) {
        (self.run)(args)
    }
}

impl<I> Predicate<I> {
    /// Boxes `p` with `Box::new`. Nothing is claimed about the result.
    #[verifier::external_body]
    pub(crate) fn new<P: Fn(&I) -> bool + 'static>(p: P) -> (b: Self) {
        Predicate { test: Box::new(p) }
    }

    /// Calls the boxed test through `Fn::call`. The verdict is up to the
    /// test, so no postcondition is stated.
    #[verifier::external_body]
    pub(crate) fn accepts(&self, args: &I) -> (verdict: bool) {
        (self.test)(args)
    }
}

impl Erased {
    /// Moves `value` into a `Box<dyn Any>` with `Box::new`. Nothing is claimed
    /// about the result.
    #[verifier::external_body]
    pub(crate) fn seal<T: 'static>(value: T) -> (e: Self) {
        Erased { inner: Box::new(value) }
    }

    /// `<dyn Any>::downcast_mut`: a mutable borrow of the held value if it is
    /// a `T`, `None` otherwise. A downcast that fails has not touched the
    /// slot.
    #[verifier::external_body]
    pub(crate) fn open_mut<T: 'static>(&mut self) -> (r: Option<&mut T>)
        ensures
            r is None ==> *final(self) == *old(self),
    {
        self.inner.downcast_mut::<T>()
    }

    /// `<dyn Any>::downcast_ref`: a shared borrow of the held value if it is a
    /// `T`, `None` otherwise. Which of the two is not stated.
    #[verifier::external_body]
    pub(crate) fn open_ref<T: 'static>(&self) -> (r: Option<&T>) {
        self.inner.downcast_ref::<T>()
    }
}

} // verus!
