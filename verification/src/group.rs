//! All expectations of one mocked method, and the matching algorithm that
//! picks the one to serve a call.

use vstd::prelude::*;
use crate::expectation::{Expectation, ExpectationState, ExpectationView};
use crate::signature::TypeTag;

verus! {

/// The expectations registered under one identifier, oldest first.
pub struct ExpectationGroup {
    name: String,
    tag: TypeTag,
    expectations: Vec<Expectation>,
}

/// The model of an [`ExpectationGroup`].
pub struct GroupView {
    /// The identifier of the mocked method.
    pub name: Seq<char>,
    /// The tag of the `(Args, Return)` pair the identifier was first
    /// registered with.
    pub tag: TypeTag,
    /// The expectations in registration order.
    pub expectations: Seq<ExpectationView>,
}

/// What the matching algorithm found.
#[derive(Clone, Copy, Debug, PartialEq, Eq, Structural)]
pub enum Selection {
    /// The expectation at this position is the first eligible one.
    Matched(usize),
    /// No expectation is eligible.
    Unmatched,
    /// The expectation at this position would be next in line, but its
    /// predicate was written for another argument type.
    Mistyped(usize),
}

/// Why a group did not serve a call.
#[derive(Clone, Copy, Debug, PartialEq, Eq, Structural)]
pub enum Refusal {
    /// No expectation is eligible.
    Unmatched,
    /// The expectation next in line was registered for another signature.
    Mistyped,
}

/// The first position at or after `from` whose expectation is live and whose
/// verdict is not a refusal. A position without a verdict counts as refused.
pub open spec fn scan(
    expectations: Seq<ExpectationView>,
    verdicts: Seq<Option<bool>>,
    from: int,
) -> Option<int>
    decreases expectations.len() - from,
{
    if from < 0 || from >= expectations.len() {
        None
    } else if expectations[from].live() && from < verdicts.len() && verdicts[from] != Some(
        false,
    ) {
        Some(from)
    } else {
        scan(expectations, verdicts, from + 1)
    }
}

impl GroupView {
    /// The outcome of matching, given what each expectation's predicate said
    /// about the arguments: `Some(true)` accepted, `Some(false)` declined,
    /// `None` could not be asked.
    ///
    /// Expectations are tried oldest first and the first eligible one wins.
    pub open spec fn resolve(self, verdicts: Seq<Option<bool>>) -> Selection {
        match scan(self.expectations, verdicts, 0) {
            None => Selection::Unmatched,
            Some(k) => if verdicts[k] == Some(true) {
                Selection::Matched(k as usize)
            } else {
                Selection::Mistyped(k as usize)
            },
        }
    }

    /// Position `k` holds the first live expectation.
    pub open spec fn first_live(self, k: int) -> bool {
        &&& 0 <= k < self.expectations.len()
        &&& self.expectations[k].live()
        &&& forall|j: int| 0 <= j < k ==> !(#[trigger] self.expectations[j]).live()
    }

    /// Position `k` can be reached by the matching algorithm: its expectation
    /// is live, and every live expectation before it has a predicate that may
    /// have declined.
    pub open spec fn candidate(self, k: int) -> bool {
        &&& 0 <= k < self.expectations.len()
        &&& self.expectations[k].live()
        &&& forall|j: int|
            0 <= j < k && #[trigger] self.expectations[j].live()
                ==> self.expectations[j].guarded()
    }

    /// No expectation can be selected unless a predicate agrees: every live
    /// one is guarded.
    pub open spec fn unmatchable(self) -> bool {
        forall|j: int|
            0 <= j < self.expectations.len() && #[trigger] self.expectations[j].live()
                ==> self.expectations[j].guarded()
    }

    /// `verdicts` can be what the predicates of this group said about some
    /// arguments: one verdict per expectation, oldest first, up to and
    /// including the first that is not `Some(false)`. An expectation that is
    /// not live has `Some(false)`, and a live one without a predicate has
    /// `Some(true)`.
    pub open spec fn consulted(self, verdicts: Seq<Option<bool>>) -> bool {
        &&& verdicts.len() <= self.expectations.len()
        &&& forall|i: int|
            0 <= i < verdicts.len() && !(#[trigger] self.expectations[i]).live() ==> verdicts[i]
                == Some(false)
        &&& forall|i: int|
            0 <= i < verdicts.len() && (#[trigger] self.expectations[i]).live()
                && !self.expectations[i].guarded() ==> verdicts[i] == Some(true)
        &&& forall|i: int|
            0 <= i < verdicts.len() - 1 ==> #[trigger] verdicts[i] == Some(false)
        &&& verdicts.len() < self.expectations.len() ==> verdicts.len() > 0 && verdicts.last()
            != Some(false)
    }

    /// `after` is this group once the expectation at `k` has served a call;
    /// every other expectation is untouched.
    pub open spec fn serves(self, k: int, after: GroupView) -> bool {
        &&& 0 <= k < self.expectations.len()
        &&& after.name == self.name
        &&& after.tag == self.tag
        &&& after.expectations == self.expectations.update(k, after.expectations[k])
        &&& self.expectations[k].serves(after.expectations[k])
    }
}

/// What `scan` finds is in range, live and not refused, and nothing before it
/// from `from` on is.
pub proof fn lemma_scan(
    expectations: Seq<ExpectationView>,
    verdicts: Seq<Option<bool>>,
    from: int,
)
    requires
        0 <= from,
    ensures
        match scan(expectations, verdicts, from) {
            Some(k) => {
                &&& from <= k < expectations.len()
                &&& k < verdicts.len()
                &&& expectations[k].live()
                &&& verdicts[k] != Some(false)
                &&& forall|j: int|
                    from <= j < k && #[trigger] expectations[j].live() ==> j >= verdicts.len()
                        || verdicts[j] == Some(false)
            },
            None => forall|j: int|
                from <= j < expectations.len() && #[trigger] expectations[j].live() ==> j
                    >= verdicts.len() || verdicts[j] == Some(false),
        },
    decreases expectations.len() - from,
{
    let found = expectations[from].live() && from < verdicts.len() && verdicts[from] != Some(
        false,
    );
    if from < expectations.len() && !found {
        lemma_scan(expectations, verdicts, from + 1);
    }
}

/// What matching finds on the verdicts of a consultation: a position the
/// algorithm can reach, or nothing if no expectation can be selected unless a
/// predicate agrees.
pub proof fn lemma_consulted(group: GroupView, verdicts: Seq<Option<bool>>)
    requires
        group.consulted(verdicts),
    ensures
        match scan(group.expectations, verdicts, 0) {
            Some(k) => group.candidate(k) && k == verdicts.len() - 1,
            None => group.unmatchable() && verdicts.len() == group.expectations.len(),
        },
{
    lemma_scan(group.expectations, verdicts, 0);
    let last = verdicts.len() - 1;
    if verdicts.len() < group.expectations.len() {
        assert(group.expectations[last].live());
    }
    match scan(group.expectations, verdicts, 0) {
        Some(k) => {
            assert forall|j: int| 0 <= j < k && #[trigger] group.expectations[j].live() implies
                group.expectations[j].guarded() by {
                assert(verdicts[j] == Some(false));
            }
        },
        None => {
            assert forall|j: int|
                0 <= j < group.expectations.len() && #[trigger] group.expectations[j].live() implies
                group.expectations[j].guarded() by {
                assert(verdicts[j] == Some(false));
            }
        },
    }
}

impl View for ExpectationGroup {
    type V = GroupView;

    closed spec fn view(&self) -> GroupView {
        GroupView {
            name: self.name@,
            tag: self.tag,
            expectations: Seq::new(self.expectations@.len(), |i: int| self.expectations@[i]@),
        }
    }
}

impl ExpectationGroup {
    /// An empty group for the identifier `name`, registered with `tag`.
    pub fn new(name: String, tag: TypeTag) -> (g: ExpectationGroup)
        ensures
            g@ == (GroupView { name: name@, tag, expectations: Seq::empty() }),
    {
        let g = ExpectationGroup { name, tag, expectations: Vec::new() };
        assert(g@.expectations =~= Seq::empty());
        g
    }

    /// The identifier of the mocked method.
    pub fn name(&self) -> (name: &str)
        ensures
            name@ == self@.name,
    {
        self.name.as_str()
    }

    /// The tag of the signature the group was created for.
    pub fn tag(&self) -> (tag: TypeTag)
        ensures
            tag == self@.tag,
    {
        self.tag
    }

    /// The number of expectations in the group.
    pub fn len(&self) -> (n: usize)
        ensures
            n == self@.expectations.len(),
    {
        self.expectations.len()
    }

    /// The expectation at position `k`, oldest first.
    pub fn get(&self, k: usize) -> (e: Option<&Expectation>)
        ensures
            match e {
                Some(e) => k < self@.expectations.len() && e@ == self@.expectations[k as int],
                None => k >= self@.expectations.len(),
            },
    {
        if k < self.expectations.len() {
            Some(&self.expectations[k])
        } else {
            None
        }
    }

    /// Whether this is the group of the method `id`.
    pub fn is_named(&self, id: &String) -> (same: bool)
        ensures
            same == (self@.name == id@),
    {
        self.name == *id
    }

    /// Appends a new, unconfigured expectation and hands it out for
    /// configuration.
    pub fn append(&mut self) -> (e: &mut Expectation)
        ensures
            e@ == ExpectationView::fresh(),
            final(self)@ == (GroupView {
                expectations: old(self)@.expectations.push(final(e)@),
                ..old(self)@
            }),
    {
        self.expectations.push(Expectation::new());
        let k = self.expectations.len() - 1;
        proof {
            // Whatever the caller writes through the borrow, the group is the old
            // one with that expectation at the end.
            assert forall|after: ExpectationGroup|
                after.name == self.name && after.tag == self.tag && after.expectations@
                    == self.expectations@.update(
                    k as int,
                    after.expectations@[k as int],
                ) implies #[trigger] after@ == (GroupView {
                expectations: old(self)@.expectations.push(after.expectations@[k as int]@),
                ..old(self)@
            }) by {
                assert(after@.expectations =~= old(self)@.expectations.push(
                    after.expectations@[k as int]@,
                ));
            }
        }
        &mut self.expectations[k]
    }

    /// Asks the predicates about `args`, oldest expectation first, up to the
    /// first expectation that is eligible or cannot be asked.
    ///
    /// * An expectation that is not live is not asked; its verdict is
    ///   `Some(false)`.
    /// * A live expectation without a predicate has the verdict `Some(true)`.
    /// * A live expectation with a predicate has the verdict that the
    ///   predicate gives, or `None` if the predicate was written for another
    ///   argument type.
    ///
    /// The verdicts end with the first that is not `Some(false)`.
    pub fn consult<I: 'static>(&self, args: &I) -> (verdicts: Vec<Option<bool>>)
        ensures
            self@.consulted(verdicts@),
    {
        let mut verdicts: Vec<Option<bool>> = Vec::new();
        let mut i: usize = 0;
        while i < self.expectations.len()
            invariant
                0 <= i <= self.expectations@.len(),
                verdicts@.len() == i,
                forall|j: int| 0 <= j < i ==> #[trigger] verdicts@[j] == Some(false),
                forall|j: int|
                    0 <= j < i && (#[trigger] self@.expectations[j]).live()
                        ==> self@.expectations[j].guarded(),
            decreases self.expectations@.len() - i,
        {
            let verdict = match self.expectations[i].state() {
                ExpectationState::Configured => self.expectations[i].admits(args),
                _ => Some(false),
            };
            verdicts.push(verdict);
            match verdict {
                Some(false) => {},
                _ => {
                    return verdicts;
                },
            }
            i = i + 1;
        }
        verdicts
    }

    /// The matching algorithm: the first expectation that is configured, not
    /// exhausted and accepted by its predicate.
    pub fn resolve(&self, verdicts: &Vec<Option<bool>>) -> (s: Selection)
        ensures
            s == self@.resolve(verdicts@),
    {
        let mut i: usize = 0;
        while i < self.expectations.len()
            invariant
                0 <= i <= self.expectations@.len(),
                scan(self@.expectations, verdicts@, 0) == scan(
                    self@.expectations,
                    verdicts@,
                    i as int,
                ),
            decreases self.expectations@.len() - i,
        {
            if i < verdicts.len() {
                match self.expectations[i].state() {
                    ExpectationState::Configured => {
                        match verdicts[i] {
                            Some(true) => {
                                return Selection::Matched(i);
                            },
                            None => {
                                return Selection::Mistyped(i);
                            },
                            Some(false) => {},
                        }
                    },
                    _ => {},
                }
            }
            i = i + 1;
        }
        Selection::Unmatched
    }

    /// Serves one call: runs the matching algorithm on `args`, invokes the
    /// behavior of the selected expectation and counts the call.
    ///
    /// On a refusal nothing has changed.
    pub fn serve<I: 'static, O: 'static>(&mut self, args: I) -> (r: Result<O, Refusal>)
        ensures
            match r {
                Ok(_) => exists|k: int|
                    old(self)@.candidate(k) && #[trigger] old(self)@.serves(k, final(self)@),
                Err(Refusal::Unmatched) => final(self)@ == old(self)@ && old(self)@.unmatchable(),
                Err(Refusal::Mistyped) => final(self)@ == old(self)@ && exists|k: int| #[trigger]
                    old(self)@.candidate(k),
            },
    {
        let verdicts = self.consult(&args);
        let selection = self.resolve(&verdicts);
        proof {
            lemma_consulted(self@, verdicts@);
            if let Some(k) = scan(self@.expectations, verdicts@, 0) {
                assert(k < self.expectations.len());
            }
        }
        match selection {
            Selection::Unmatched => Err(Refusal::Unmatched),
            Selection::Mistyped(_) => Err(Refusal::Mistyped),
            Selection::Matched(k) => {
                match self.expectations[k].respond(args) {
                    Some(out) => {
                        proof {
                            assert(self@.expectations =~= old(self)@.expectations.update(
                                k as int,
                                self@.expectations[k as int],
                            ));
                            assert(old(self)@.serves(k as int, self@));
                        }
                        Ok(out)
                    },
                    None => {
                        proof {
                            assert(self@.expectations =~= old(self)@.expectations);
                        }
                        Err(Refusal::Mistyped)
                    },
                }
            },
        }
    }
}

} // verus!
