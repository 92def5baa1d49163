//! One expectation: a behavior, an optional argument predicate, a call quota
//! and a counter.

use vstd::prelude::*;
use core::marker::PhantomData;
use crate::callable::{Behavior, Erased, Predicate};

verus! {

/// The lifecycle stage of one expectation.
///
/// `Unconfigured --returning--> Configured --quota reached--> Exhausted`.
/// Only a `Configured` expectation can be matched.
#[derive(Clone, Copy, Debug, PartialEq, Eq, Structural)]
pub enum ExpectationState {
    /// No behavior has been attached yet.
    Unconfigured,
    /// A behavior is attached and the quota is not used up.
    Configured,
    /// The finite quota has been reached.
    Exhausted,
}

/// One registered rule of how a mocked method responds.
pub struct Expectation {
    behavior: Option<Erased>,
    predicate: Option<Erased>,
    quota: Option<usize>,
    count: usize,
}

/// The model of an [`Expectation`].
///
/// The callables are opaque values; everything the matching algorithm reads
/// is here as plain data.
pub struct ExpectationView {
    /// The attached behavior, if `returning` has been called.
    pub behavior: Option<Erased>,
    /// The attached argument predicate, if any.
    pub predicate: Option<Erased>,
    /// The largest number of calls this expectation may serve; `None` is
    /// unlimited.
    pub quota: Option<nat>,
    /// The number of calls served so far.
    pub count: nat,
}

/// The counter after one more call. It stops at `usize::MAX`, which only an
/// unlimited expectation can reach while it is still matched.
pub open spec fn bumped(count: nat) -> nat {
    if count < usize::MAX {
        count + 1
    } else {
        count
    }
}

impl ExpectationView {
    /// What holds of the model of every [`Expectation`]: quota and counter
    /// are machine integers.
    pub open spec fn valid(self) -> bool {
        &&& self.count <= usize::MAX
        &&& self.quota is Some ==> self.quota.unwrap() <= usize::MAX
    }

    /// A newly created expectation: no behavior, no predicate, unlimited,
    /// never called.
    pub open spec fn fresh() -> ExpectationView {
        ExpectationView { behavior: None, predicate: None, quota: None, count: 0 }
    }

    /// The lifecycle stage.
    pub open spec fn state(self) -> ExpectationState {
        if self.behavior is None {
            ExpectationState::Unconfigured
        } else if self.quota is Some && self.count >= self.quota.unwrap() {
            ExpectationState::Exhausted
        } else {
            ExpectationState::Configured
        }
    }

    /// Configured and not exhausted: the part of eligibility that does not
    /// depend on the arguments.
    pub open spec fn live(self) -> bool {
        self.state() == ExpectationState::Configured
    }

    /// Whether an argument predicate has a say in eligibility.
    pub open spec fn guarded(self) -> bool {
        self.predicate is Some
    }

    /// `after` is this expectation having served one more call: the counter
    /// moved on and nothing else of the bookkeeping changed. The behavior is
    /// still attached but may have changed its own state.
    pub open spec fn serves(self, after: ExpectationView) -> bool {
        &&& after.behavior is Some
        &&& after.predicate == self.predicate
        &&& after.quota == self.quota
        &&& after.count == bumped(self.count)
    }
}

impl View for Expectation {
    type V = ExpectationView;

    closed spec fn view(&self) -> ExpectationView {
        ExpectationView {
            behavior: self.behavior,
            predicate: self.predicate,
            quota: match self.quota {
                Some(n) => Some(n as nat),
                None => None,
            },
            count: self.count as nat,
        }
    }
}

impl Expectation {
    /// The model of an expectation is valid.
    pub proof fn lemma_valid(&self)
        ensures
            self@.valid(),
    {
    }

    /// An expectation in state `Unconfigured` with unlimited quota.
    pub fn new() -> (e: Expectation)
        ensures
            e@ == ExpectationView::fresh(),
    {
        Expectation { behavior: None, predicate: None, quota: None, count: 0 }
    }

    /// The number of calls served so far.
    pub fn count(&self) -> (n: usize)
        ensures
            n == self@.count,
    {
        self.count
    }

    /// The largest number of calls this expectation may serve; `None` is
    /// unlimited.
    pub fn quota(&self) -> (q: Option<usize>)
        ensures
            q is Some <==> self@.quota is Some,
            q is Some ==> q.unwrap() == self@.quota.unwrap(),
    {
        self.quota
    }

    /// Whether an argument predicate is attached.
    pub fn has_predicate(&self) -> (guarded: bool)
        ensures
            guarded == self@.guarded(),
    {
        self.predicate.is_some()
    }

    /// The lifecycle stage, computed from the behavior, the quota and the
    /// counter.
    pub fn state(&self) -> (s: ExpectationState)
        ensures
            s == self@.state(),
    {
        if self.behavior.is_none() {
            ExpectationState::Unconfigured
        } else {
            match self.quota {
                Some(n) => if self.count >= n {
                    ExpectationState::Exhausted
                } else {
                    ExpectationState::Configured
                },
                None => ExpectationState::Configured,
            }
        }
    }

    /// Asks the predicate, if there is one, whether it accepts `args`.
    ///
    /// Without a predicate the answer is `Some(true)`. With one, the answer is
    /// whatever the predicate says, or `None` if the predicate was written for
    /// another argument type than `I`.
    pub fn admits<I: 'static>(&self, args: &I) -> (verdict: Option<bool>)
        ensures
            !self@.guarded() ==> verdict == Some(true),
    {
        match &self.predicate {
            None => Some(true),
            Some(slot) => match slot.open_ref::<Predicate<I>>() {
                Some(p) => Some(p.accepts(args)),
                None => None,
            },
        }
    }

    /// Books the outcome of an invocation: a call that was answered is
    /// counted, one that was not leaves the expectation as it was. The
    /// outcome is handed back as it came.
    pub fn record<O>(&mut self, outcome: Option<O>) -> (out: Option<O>)
        ensures
            out == outcome,
            final(self)@ == if outcome is Some {
                ExpectationView { count: bumped(old(self)@.count), ..old(self)@ }
            } else {
                old(self)@
            },
    {
        if outcome.is_some() && self.count < usize::MAX {
            self.count = self.count + 1;
        }
        outcome
    }

    /// Invokes the behavior on `args` and counts the call.
    ///
    /// Returns `None`, and changes nothing, if no behavior is attached or the
    /// attached one was written for another `(I, O)`. Otherwise returns what
    /// the behavior returned.
    pub fn respond<I: 'static, O: 'static>(&mut self, args: I) -> (out: Option<O>)
        ensures
            out is Some ==> old(self)@.serves(final(self)@),
            out is None ==> final(self)@ == old(self)@,
            old(self)@.behavior is None ==> out is None,
    {
        let outcome = match &mut self.behavior {
            Some(slot) => match slot.open_mut::<Behavior<I, O>>() {
                Some(b) => Some(b.invoke(args)),
                None => None,
            },
            None => None,
        };
        self.record(outcome)
    }
}

/// A typed handle on a newly registered expectation.
///
/// The type parameters fix, at compile time, the arguments and the return
/// value that a behavior attached through this handle must have.
pub struct ExpectationBuilder<'a, I, O> {
    /// The expectation being configured.
    pub expectation: &'a mut Expectation,
    /// The signature that a behavior attached through this handle has.
    pub signature: PhantomData<(I, O)>,
}

impl<'a, I: 'static, O: 'static> ExpectationBuilder<'a, I, O> {
    /// Binds a handle to `expectation`.
    pub fn bind(expectation: &'a mut Expectation) -> (b: Self)
        ensures
            *b.expectation == *old(expectation),
            *final(expectation) == *final(b.expectation),
    {
        ExpectationBuilder { expectation, signature: PhantomData }
    }

    /// Attaches `f` as the behavior. The expectation becomes configured; a
    /// behavior attached earlier is replaced, and the counter, the quota and
    /// the predicate stay as they were.
    pub fn returning<F: FnMut(I) -> O + 'static>(self, f: F) -> (b: Self)
        ensures
            b.expectation@.behavior is Some,
            b.expectation@.predicate == old(self.expectation)@.predicate,
            b.expectation@.quota == old(self.expectation)@.quota,
            b.expectation@.count == old(self.expectation)@.count,
            *final(b.expectation) == *final(self.expectation),
    {
        self.expectation.behavior = Some(Erased::seal(Behavior::<I, O>::new(f)));
        self
    }

    /// Bounds the number of calls the expectation may serve to `n`.
    pub fn times(self, n: usize) -> (b: Self)
        ensures
            b.expectation@ == (ExpectationView {
                quota: Some(n as nat),
                ..old(self.expectation)@
            }),
            *final(b.expectation) == *final(self.expectation),
    {
        self.expectation.quota = Some(n);
        self
    }

    /// Attaches `p` as the argument predicate: the expectation is eligible
    /// only for arguments that `p` accepts.
    pub fn with<P: Fn(&I) -> bool + 'static>(self, p: P) -> (b: Self)
        ensures
            b.expectation@.predicate is Some,
            b.expectation@.behavior == old(self.expectation)@.behavior,
            b.expectation@.quota == old(self.expectation)@.quota,
            b.expectation@.count == old(self.expectation)@.count,
            *final(b.expectation) == *final(self.expectation),
    {
        self.expectation.predicate = Some(Erased::seal(Predicate::<I>::new(p)));
        self
    }
}

} // verus!
