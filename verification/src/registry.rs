//! The registry of one mock object and the dispatcher that serves its calls.

use vstd::prelude::*;
use crate::error::{MockError, MockErrorView};
use crate::expectation::{Expectation, ExpectationBuilder, ExpectationView};
use crate::group::{ExpectationGroup, GroupView, Refusal};
use crate::signature::TypeTag;

verus! {

/// Every expectation of one mock object, grouped by the identifier of the
/// mocked method.
pub struct ExpectationRegistry {
    groups: Vec<ExpectationGroup>,
}

/// The position of the group named `id` at or after `from`, if there is one.
pub open spec fn position_from(groups: Seq<GroupView>, id: Seq<char>, from: int) -> Option<int>
    decreases groups.len() - from,
{
    if from < 0 || from >= groups.len() {
        None
    } else if groups[from].name == id {
        Some(from)
    } else {
        position_from(groups, id, from + 1)
    }
}

/// The position of the group named `id`, if there is one.
pub open spec fn position(groups: Seq<GroupView>, id: Seq<char>) -> Option<int> {
    position_from(groups, id, 0)
}

/// No two groups share an identifier.
pub open spec fn distinct_names(groups: Seq<GroupView>) -> bool {
    forall|i: int, j: int|
        0 <= i < j < groups.len() ==> (#[trigger] groups[i]).name != (#[trigger] groups[j]).name
}

/// What holds of every registry: an identifier names at most one group, and
/// a group exists only once an expectation has been registered in it.
pub open spec fn well_formed(groups: Seq<GroupView>) -> bool {
    &&& distinct_names(groups)
    &&& forall|g: int| 0 <= g < groups.len() ==> (#[trigger] groups[g]).expectations.len() > 0
}

/// The registry after one more expectation, `expectation`, has been registered
/// under `id`: appended to the group of that name, or alone in a new group
/// tagged `tag` if there was none.
pub open spec fn registered(
    groups: Seq<GroupView>,
    id: Seq<char>,
    tag: TypeTag,
    expectation: ExpectationView,
) -> Seq<GroupView> {
    match position(groups, id) {
        Some(g) => groups.update(
            g,
            GroupView { expectations: groups[g].expectations.push(expectation), ..groups[g] },
        ),
        None => groups.push(GroupView { name: id, tag, expectations: seq![expectation] }),
    }
}

/// `r` is the failure `e`.
pub open spec fn fails_with<O>(r: Result<O, MockError>, e: MockErrorView) -> bool {
    match r {
        Err(err) => err@ == e,
        Ok(_) => false,
    }
}

/// What a dispatched call may do and return.
///
/// `pre` and `post` are the registry before and after a call to `id` by a
/// caller whose signature has the tag `tag`, and `r` is what the caller gets.
///
/// * Without a group named `id` the call fails with `NoMatchingExpectation`.
/// * With a group whose tag is not `tag` it fails with `TypeMismatch`,
///   whatever the arguments.
/// * Otherwise, a success means that an expectation the matching algorithm can
///   reach has served the call; `NoMatchingExpectation` means that no live
///   expectation is free of a predicate; `TypeMismatch` means that an
///   expectation was reached but was registered for another signature.
///
/// A failed call leaves the registry as it was.
pub open spec fn dispatched<O>(
    pre: Seq<GroupView>,
    post: Seq<GroupView>,
    id: Seq<char>,
    tag: TypeTag,
    r: Result<O, MockError>,
) -> bool {
    match position(pre, id) {
        None => post == pre && fails_with(r, MockErrorView::NoMatchingExpectation { id }),
        Some(g) => if pre[g].tag != tag {
            post == pre && fails_with(r, MockErrorView::TypeMismatch { id })
        } else {
            match r {
                Ok(_) => exists|k: int|
                    pre[g].candidate(k) && #[trigger] pre[g].serves(k, post[g]) && post
                        == pre.update(g, post[g]),
                Err(e) => post == pre && e@.id() == id && match e {
                    MockError::NoMatchingExpectation { .. } => pre[g].unmatchable(),
                    MockError::TypeMismatch { .. } => exists|k: int| #[trigger] pre[g].candidate(k),
                },
            }
        },
    }
}

/// What `position_from` finds is in range and named `id`, and no group before
/// it from `from` on is.
pub proof fn lemma_position(groups: Seq<GroupView>, id: Seq<char>, from: int)
    requires
        0 <= from,
    ensures
        match position_from(groups, id, from) {
            Some(g) => from <= g < groups.len() && groups[g].name == id && forall|j: int|
                from <= j < g ==> (#[trigger] groups[j]).name != id,
            None => forall|j: int| from <= j < groups.len() ==> (#[trigger] groups[j]).name != id,
        },
    decreases groups.len() - from,
{
    if from < groups.len() && groups[from].name != id {
        lemma_position(groups, id, from + 1);
    }
}

/// Registering keeps a registry well formed.
pub proof fn lemma_registered_well_formed(
    groups: Seq<GroupView>,
    id: Seq<char>,
    tag: TypeTag,
    expectation: ExpectationView,
)
    requires
        well_formed(groups),
    ensures
        well_formed(registered(groups, id, tag, expectation)),
{
    lemma_position(groups, id, 0);
}

impl View for ExpectationRegistry {
    type V = Seq<GroupView>;

    closed spec fn view(&self) -> Seq<GroupView> {
        Seq::new(self.groups@.len(), |i: int| self.groups@[i]@)
    }
}

impl Default for ExpectationRegistry {
    /// A registry without any expectation.
    fn default() -> (registry: ExpectationRegistry)
        ensures
            registry.wf(),
            registry@ == Seq::<GroupView>::empty(),
    {
        ExpectationRegistry::new()
    }
}

impl ExpectationRegistry {
    /// The invariant of a registry.
    pub open spec fn wf(&self) -> bool {
        well_formed(self@)
    }

    /// A registry without any expectation.
    pub fn new() -> (registry: ExpectationRegistry)
        ensures
            registry.wf(),
            registry@ == Seq::<GroupView>::empty(),
    {
        let registry = ExpectationRegistry { groups: Vec::new() };
        assert(registry@ =~= Seq::<GroupView>::empty());
        registry
    }

    /// The number of mocked methods that have an expectation.
    pub fn len(&self) -> (n: usize)
        ensures
            n == self@.len(),
    {
        self.groups.len()
    }

    /// Whether nothing has been registered.
    pub fn is_empty(&self) -> (empty: bool)
        ensures
            empty == (self@.len() == 0),
    {
        self.groups.len() == 0
    }

    /// The expectations registered under `id`.
    pub fn group(&self, id: &str) -> (found: Option<&ExpectationGroup>)
        ensures
            match found {
                Some(group) => position(self@, id@) matches Some(g) && group@ == self@[g],
                None => position(self@, id@) is None,
            },
    {
        match self.locate(id) {
            Some(g) => {
                proof {
                    lemma_position(self@, id@, 0);
                }
                Some(&self.groups[g])
            },
            None => None,
        }
    }

    /// The position of the group registered under `id`.
    pub fn locate(&self, id: &str) -> (found: Option<usize>)
        ensures
            match found {
                Some(g) => position(self@, id@) == Some(g as int),
                None => position(self@, id@) is None,
            },
    {
        let key = id.to_owned();
        let mut i: usize = 0;
        while i < self.groups.len()
            invariant
                0 <= i <= self.groups@.len(),
                key@ == id@,
                position(self@, id@) == position_from(self@, id@, i as int),
            decreases self.groups@.len() - i,
        {
            if self.groups[i].is_named(&key) {
                return Some(i);
            }
            i = i + 1;
        }
        None
    }

    /// Registers a new, unconfigured expectation under `id` and hands it out
    /// for configuration.
    ///
    /// `tag` is only used if this is the first expectation under `id`: a group
    /// keeps the tag it was created with.
    pub fn register(&mut self, id: &str, tag: TypeTag) -> (e: &mut Expectation)
        requires
            old(self).wf(),
        ensures
            e@ == ExpectationView::fresh(),
            final(self)@ == registered(old(self)@, id@, tag, final(e)@),
            final(self).wf(),
    {
        let g = match self.locate(id) {
            Some(g) => g,
            None => {
                self.groups.push(ExpectationGroup::new(id.to_owned(), tag));
                self.groups.len() - 1
            },
        };
        proof {
            // Whatever the caller writes through the borrow, the registry is the
            // old one with that expectation registered.
            lemma_position(old(self)@, id@, 0);
            assert forall|expectation: ExpectationView|
                well_formed(#[trigger] registered(old(self)@, id@, tag, expectation)) by {
                lemma_registered_well_formed(old(self)@, id@, tag, expectation);
            }
            assert forall|after: ExpectationRegistry|
                after.groups@ == self.groups@.update(g as int, after.groups@[g as int])
                    && after.groups@[g as int]@ == (GroupView {
                    expectations: self.groups@[g as int]@.expectations.push(
                        after.groups@[g as int]@.expectations.last(),
                    ),
                    ..self.groups@[g as int]@
                }) implies #[trigger] after@ == registered(
                old(self)@,
                id@,
                tag,
                after.groups@[g as int]@.expectations.last(),
            ) by {
                let expectation = after.groups@[g as int]@.expectations.last();
                assert(after@ =~= registered(old(self)@, id@, tag, expectation));
            }
        }
        self.groups[g].append()
    }

    /// Registers a new expectation for the method `id` with arguments packed
    /// as `I` and return type `O`, and returns the handle to configure it.
    ///
    /// The expectation starts unconfigured: until `returning` is called on the
    /// handle it cannot be matched.
    pub fn expect<I: 'static, O: 'static>(&mut self, id: &str) -> (b: ExpectationBuilder<'_, I, O>)
        requires
            old(self).wf(),
        ensures
            b.expectation@ == ExpectationView::fresh(),
            exists|tag: TypeTag|
                final(self)@ == #[trigger] registered(old(self)@, id@, tag, final(b.expectation)@),
            final(self).wf(),
    {
        let tag = TypeTag::of::<I, O>();
        ExpectationBuilder::bind(self.register(id, tag))
    }

    /// What the caller of the method `id` gets once its group has answered: the
    /// value that was served, as it came, or the failure that the refusal
    /// amounts to.
    pub fn conclude<O>(id: &str, served: Result<O, Refusal>) -> (r: Result<O, MockError>)
        ensures
            match served {
                Ok(out) => r == Ok::<O, MockError>(out),
                Err(Refusal::Unmatched) => fails_with(
                    r,
                    MockErrorView::NoMatchingExpectation { id: id@ },
                ),
                Err(Refusal::Mistyped) => fails_with(r, MockErrorView::TypeMismatch { id: id@ }),
            },
    {
        match served {
            Ok(out) => Ok(out),
            Err(Refusal::Unmatched) => Err(MockError::NoMatchingExpectation { id: id.to_owned() }),
            Err(Refusal::Mistyped) => Err(MockError::TypeMismatch { id: id.to_owned() }),
        }
    }

    /// Serves a call to the method `id` made by a caller whose signature has
    /// the tag `tag`: looks up the group, checks the tag, selects the first
    /// eligible expectation, invokes its behavior on `args` and counts the
    /// call.
    pub fn dispatch<I: 'static, O: 'static>(
        &mut self,
        id: &str,
        tag: TypeTag,
        args: I,
    ) -> (r: Result<O, MockError>)
        requires
            old(self).wf(),
        ensures
            dispatched(old(self)@, final(self)@, id@, tag, r),
            final(self).wf(),
    {
        let g = match self.locate(id) {
            Some(g) => g,
            None => {
                return Err(MockError::NoMatchingExpectation { id: id.to_owned() });
            },
        };
        proof {
            lemma_position(self@, id@, 0);
        }
        if !self.groups[g].tag().matches(&tag) {
            return Err(MockError::TypeMismatch { id: id.to_owned() });
        }
        let served = self.groups[g].serve::<I, O>(args);
        proof {
            assert(self@ =~= old(self)@.update(g as int, self@[g as int]));
            if served is Err {
                assert(self@ =~= old(self)@);
            }
        }
        Self::conclude(id, served)
    }

    /// Serves a call to the method `id` with arguments packed as `I` and
    /// return type `O`.
    ///
    /// The tag of `(I, O)` is taken at run time, so the contract holds for
    /// some tag: see [`dispatched`] for what each outcome means.
    pub fn call<I: 'static, O: 'static>(&mut self, id: &str, args: I) -> (r: Result<O, MockError>)
        requires
            old(self).wf(),
        ensures
            exists|tag: TypeTag| #[trigger] dispatched(old(self)@, final(self)@, id@, tag, r),
            position(old(self)@, id@) is None ==> fails_with(
                r,
                MockErrorView::NoMatchingExpectation { id: id@ },
            ),
            r is Err ==> final(self)@ == old(self)@,
            final(self).wf(),
    {
        let tag = TypeTag::of::<I, O>();
        self.dispatch(id, tag, args)
    }
}

} // verus!
