//! What holds of a registry across registrations and calls.
//!
//! Every theorem is stated over the models and the spec functions that the
//! contracts of the registry use, so it applies to every run of the
//! executable code.

use vstd::prelude::*;
use crate::error::{MockError, MockErrorView};
use crate::expectation::{ExpectationState, ExpectationView};
use crate::group::{scan, GroupView};
use crate::registry::{dispatched, fails_with, lemma_position, position, position_from, registered};
use crate::signature::TypeTag;

verus! {

/// Replacing a group by one of the same name moves no group.
pub proof fn lemma_position_after_update(
    groups: Seq<GroupView>,
    g: int,
    group: GroupView,
    id: Seq<char>,
    from: int,
)
    requires
        0 <= from,
        0 <= g < groups.len(),
        group.name == groups[g].name,
    ensures
        position_from(groups.update(g, group), id, from) == position_from(groups, id, from),
    decreases groups.len() - from,
{
    if from < groups.len() && groups[from].name != id {
        lemma_position_after_update(groups, g, group, id, from + 1);
    }
}

/// A call to a method that was never registered fails with
/// `NoMatchingExpectation` and changes nothing, whatever the signature and
/// the arguments of the caller.
pub proof fn unregistered_method_fails<O>(
    pre: Seq<GroupView>,
    post: Seq<GroupView>,
    id: Seq<char>,
    tag: TypeTag,
    r: Result<O, MockError>,
)
    requires
        dispatched(pre, post, id, tag, r),
        forall|g: int| 0 <= g < pre.len() ==> (#[trigger] pre[g]).name != id,
    ensures
        fails_with(r, MockErrorView::NoMatchingExpectation { id }),
        post == pre,
{
    lemma_position(pre, id, 0);
}

/// An unlimited expectation without a predicate that is first in line serves
/// every call that succeeds, and is first in line again afterwards.
///
/// So all calls reach the same behavior, one after the other, and each sees
/// the state that the calls before it left behind. Such a call never fails
/// with `NoMatchingExpectation`.
pub proof fn unlimited_keeps_serving<O>(
    pre: Seq<GroupView>,
    post: Seq<GroupView>,
    id: Seq<char>,
    tag: TypeTag,
    r: Result<O, MockError>,
    g: int,
    k: int,
)
    requires
        dispatched(pre, post, id, tag, r),
        position(pre, id) == Some(g),
        pre[g].tag == tag,
        pre[g].first_live(k),
        !pre[g].expectations[k].guarded(),
        pre[g].expectations[k].quota is None,
    ensures
        !fails_with(r, MockErrorView::NoMatchingExpectation { id }),
        r is Ok ==> pre[g].serves(k, post[g]),
        position(post, id) == Some(g),
        post[g].tag == tag,
        post[g].first_live(k),
        !post[g].expectations[k].guarded(),
        post[g].expectations[k].quota is None,
{
    lemma_position(pre, id, 0);
    if r is Ok {
        let served = choose|j: int|
            pre[g].candidate(j) && #[trigger] pre[g].serves(j, post[g]) && post == pre.update(
                g,
                post[g],
            );
        assert(served == k) by {
            if served < k {
                assert(!pre[g].expectations[served].live());
            }
            if served > k {
                assert(pre[g].expectations[k].live());
            }
        }
        lemma_position_after_update(pre, g, post[g], id, 0);
        assert forall|j: int| 0 <= j < k implies !(#[trigger] post[g].expectations[j]).live() by {
            assert(post[g].expectations[j] == pre[g].expectations[j]);
        }
    } else {
        assert(pre[g].expectations[k].live());
    }
}

/// An expectation bounded to `n` calls is live for exactly the first `n`
/// calls it serves.
///
/// `history` is the expectation as it was registered and configured, followed
/// by what it became with each call it served.
pub proof fn finite_quota_runs_out(history: Seq<ExpectationView>, n: nat)
    requires
        history.len() > 0,
        history[0].valid(),
        history[0].behavior is Some,
        history[0].quota == Some(n),
        history[0].count == 0,
        forall|i: int|
            0 <= i < history.len() - 1 ==> (#[trigger] history[i]).serves(history[i + 1]),
    ensures
        forall|m: int| 0 <= m < history.len() ==> ((#[trigger] history[m]).live() <==> m < n),
        forall|m: int|
            n <= m < history.len() ==> (#[trigger] history[m]).state()
                == ExpectationState::Exhausted,
{
    assert forall|m: int| 0 <= m < history.len() implies {
        &&& (#[trigger] history[m]).behavior is Some
        &&& history[m].quota == Some(n)
        &&& history[m].count == if m <= usize::MAX {
            m as nat
        } else {
            usize::MAX as nat
        }
    } by {
        lemma_history(history, n, m);
    }
}

proof fn lemma_history(history: Seq<ExpectationView>, n: nat, m: int)
    requires
        0 <= m < history.len(),
        history[0].behavior is Some,
        history[0].quota == Some(n),
        history[0].count == 0,
        forall|i: int|
            0 <= i < history.len() - 1 ==> (#[trigger] history[i]).serves(history[i + 1]),
    ensures
        history[m].behavior is Some,
        history[m].quota == Some(n),
        history[m].count == if m <= usize::MAX {
            m as nat
        } else {
            usize::MAX as nat
        },
    decreases m,
{
    if m > 0 {
        lemma_history(history, n, m - 1);
        assert(history[m - 1].serves(history[m]));
    }
}

/// An expectation that is not live is passed over: whatever a call does, it
/// leaves that expectation as it was.
///
/// So once a bounded expectation is exhausted, the next call is served by
/// another expectation or fails.
pub proof fn exhausted_is_passed_over<O>(
    pre: Seq<GroupView>,
    post: Seq<GroupView>,
    id: Seq<char>,
    tag: TypeTag,
    r: Result<O, MockError>,
    g: int,
    j: int,
)
    requires
        dispatched(pre, post, id, tag, r),
        position(pre, id) == Some(g),
        0 <= j < pre[g].expectations.len(),
        !pre[g].expectations[j].live(),
    ensures
        post[g].expectations[j] == pre[g].expectations[j],
{
    lemma_position(pre, id, 0);
}

/// A method registered with one signature and called with another fails with
/// `TypeMismatch`, whatever the arguments and whatever the expectation was
/// configured to do.
///
/// `before` is any registry in which the method is unknown or known with the
/// signature it is now registered with.
pub proof fn other_signature_is_refused<O>(
    before: Seq<GroupView>,
    id: Seq<char>,
    registered_tag: TypeTag,
    expectation: ExpectationView,
    called_tag: TypeTag,
    post: Seq<GroupView>,
    r: Result<O, MockError>,
)
    requires
        position(before, id) matches Some(g) ==> before[g].tag == registered_tag,
        registered_tag != called_tag,
        dispatched(registered(before, id, registered_tag, expectation), post, id, called_tag, r),
    ensures
        fails_with(r, MockErrorView::TypeMismatch { id }),
        post == registered(before, id, registered_tag, expectation),
{
    let pre = registered(before, id, registered_tag, expectation);
    lemma_position(before, id, 0);
    lemma_position(pre, id, 0);
    match position(before, id) {
        Some(g) => {
            lemma_position_after_update(before, g, pre[g], id, 0);
        },
        None => {
            let last = before.len() as int;
            assert(pre[last].name == id && pre[last].tag == registered_tag);
            assert(position(pre, id) == Some(last)) by {
                let g = position(pre, id).unwrap();
                if g < last {
                    assert(pre[g] == before[g]);
                }
            }
        },
    }
}

/// The matching algorithm reads nothing but the lifecycle states and the
/// verdicts: two groups whose expectations are in the same states select the
/// same position, whatever their identifiers, their signatures, the number
/// of packed arguments and the callables attached.
pub proof fn matching_ignores_signature(a: GroupView, b: GroupView, verdicts: Seq<Option<bool>>)
    requires
        a.expectations.len() == b.expectations.len(),
        forall|i: int|
            0 <= i < a.expectations.len() ==> (#[trigger] a.expectations[i]).state()
                == b.expectations[i].state(),
    ensures
        a.resolve(verdicts) == b.resolve(verdicts),
{
    lemma_same_scan(a.expectations, b.expectations, verdicts, 0);
}

proof fn lemma_same_scan(
    a: Seq<ExpectationView>,
    b: Seq<ExpectationView>,
    verdicts: Seq<Option<bool>>,
    from: int,
)
    requires
        0 <= from,
        a.len() == b.len(),
        forall|i: int| 0 <= i < a.len() ==> (#[trigger] a[i]).state() == b[i].state(),
    ensures
        scan(a, verdicts, from) == scan(b, verdicts, from),
    decreases a.len() - from,
{
    if from < a.len() {
        assert(a[from].state() == b[from].state());
        lemma_same_scan(a, b, verdicts, from + 1);
    }
}

} // verus!
