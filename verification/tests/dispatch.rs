use mockall::group::{Refusal, Selection};
use mockall::{
    Expectation, ExpectationBuilder, ExpectationGroup, ExpectationRegistry, ExpectationState,
    MockError, TypeTag,
};

fn no_match(id: &str) -> String {
    format!("No matching expectation found for {}", id)
}

fn mismatch(id: &str) -> String {
    format!("Mismatched argument or return types for {}", id)
}

#[test]
fn new_registry_is_empty() {
    let e = ExpectationRegistry::new();
    assert!(e.is_empty());
    assert_eq!(e.len(), 0);
    assert!(e.group("foo").is_none());
    assert_eq!(e.locate("foo"), None);
}

#[test]
fn unregistered_method_fails_and_names_the_method() {
    let mut e = ExpectationRegistry::new();
    e.expect::<i32, i32>("bar").returning(|x| x);
    let r = e.call::<i32, i32>("foo", 5);
    match r {
        Err(MockError::NoMatchingExpectation { id }) => assert_eq!(id, "foo"),
        _ => panic!("expected NoMatchingExpectation"),
    }
    assert_eq!(e.call::<i32, i32>("foo", 5).unwrap_err().message(), no_match("foo"));
    assert_eq!(e.call::<i32, i32>("foo", 5).unwrap_err().id(), "foo");
    assert_eq!(e.call::<i32, i32>("bar", 5).unwrap(), 5);
}

#[test]
fn expect_creates_one_group_per_method() {
    let mut e = ExpectationRegistry::new();
    e.expect::<i32, i32>("foo");
    e.expect::<i32, i32>("bar");
    e.expect::<i32, i32>("foo");
    assert_eq!(e.len(), 2);
    assert_eq!(e.locate("foo"), Some(0));
    assert_eq!(e.locate("bar"), Some(1));
    assert_eq!(e.group("foo").unwrap().len(), 2);
    assert_eq!(e.group("bar").unwrap().len(), 1);
    assert_eq!(e.group("foo").unwrap().name(), "foo");
    assert!(e.group("foo").unwrap().tag().matches(&TypeTag::of::<i32, i32>()));
}

#[test]
fn new_expectation_is_unconfigured_and_never_selected() {
    let mut e = ExpectationRegistry::new();
    e.expect::<i32, i32>("foo");
    {
        let x = e.group("foo").unwrap().get(0).unwrap();
        assert_eq!(x.state(), ExpectationState::Unconfigured);
        assert_eq!(x.count(), 0);
        assert_eq!(x.quota(), None);
        assert!(!x.has_predicate());
    }
    assert_eq!(e.call::<i32, i32>("foo", 5).unwrap_err().message(), no_match("foo"));
    assert_eq!(e.group("foo").unwrap().get(0).unwrap().count(), 0);
}

#[test]
fn unlimited_expectation_serves_every_call_with_its_own_state() {
    let mut e = ExpectationRegistry::new();
    let mut seen = Vec::new();
    e.expect::<u64, Vec<u64>>("foo").returning(move |x| {
        seen.push(x);
        seen.clone()
    });
    for n in 1..=100u64 {
        let r = e.call::<u64, Vec<u64>>("foo", n).unwrap();
        assert_eq!(r.len() as u64, n);
        assert_eq!(r[r.len() - 1], n);
        assert_eq!(r[0], 1);
    }
    let x = e.group("foo").unwrap().get(0).unwrap();
    assert_eq!(x.count(), 100);
    assert_eq!(x.state(), ExpectationState::Configured);
}

#[test]
fn call_returns_what_the_behavior_returns() {
    let mut e = ExpectationRegistry::new();
    e.expect::<(i32, i32), i32>("add").returning(|(a, b)| a + b);
    e.expect::<String, usize>("len").returning(|s| s.len());
    assert_eq!(e.call::<(i32, i32), i32>("add", (2, 3)).unwrap(), 5);
    assert_eq!(e.call::<(i32, i32), i32>("add", (-7, 3)).unwrap(), -4);
    assert_eq!(e.call::<String, usize>("len", "four".to_string()).unwrap(), 4);
}

#[test]
fn bounded_expectation_serves_exactly_its_quota() {
    let mut e = ExpectationRegistry::new();
    e.expect::<i32, i32>("foo").returning(|x| x + 1).times(3);
    for n in 0..3 {
        assert_eq!(
            e.group("foo").unwrap().get(0).unwrap().state(),
            ExpectationState::Configured
        );
        assert_eq!(e.call::<i32, i32>("foo", n).unwrap(), n + 1);
        assert_eq!(e.group("foo").unwrap().get(0).unwrap().count(), (n + 1) as usize);
    }
    assert_eq!(e.group("foo").unwrap().get(0).unwrap().state(), ExpectationState::Exhausted);
    assert_eq!(e.group("foo").unwrap().get(0).unwrap().quota(), Some(3));
    assert_eq!(e.call::<i32, i32>("foo", 3).unwrap_err().message(), no_match("foo"));
    assert_eq!(e.call::<i32, i32>("foo", 4).unwrap_err().message(), no_match("foo"));
    assert_eq!(e.group("foo").unwrap().get(0).unwrap().count(), 3);
}

#[test]
fn quota_of_zero_is_exhausted_from_the_start() {
    let mut e = ExpectationRegistry::new();
    e.expect::<(), i32>("foo").returning(|_| 1).times(0);
    assert_eq!(e.group("foo").unwrap().get(0).unwrap().state(), ExpectationState::Exhausted);
    assert_eq!(e.call::<(), i32>("foo", ()).unwrap_err().message(), no_match("foo"));
}

#[test]
fn exhausted_expectation_gives_way_to_the_next() {
    let mut e = ExpectationRegistry::new();
    e.expect::<(), i32>("foo").returning(|_| 1).times(2);
    e.expect::<(), i32>("foo").returning(|_| 2).times(1);
    e.expect::<(), i32>("foo").returning(|_| 3);
    let mut got = Vec::new();
    for _ in 0..6 {
        got.push(e.call::<(), i32>("foo", ()).unwrap());
    }
    assert_eq!(got, vec![1, 1, 2, 3, 3, 3]);
    let g = e.group("foo").unwrap();
    assert_eq!(g.get(0).unwrap().count(), 2);
    assert_eq!(g.get(1).unwrap().count(), 1);
    assert_eq!(g.get(2).unwrap().count(), 3);
    assert!(g.get(3).is_none());
}

#[test]
fn oldest_eligible_expectation_wins() {
    let mut e = ExpectationRegistry::new();
    e.expect::<(), i32>("foo");
    e.expect::<(), i32>("foo").returning(|_| 2);
    e.expect::<(), i32>("foo").returning(|_| 3);
    assert_eq!(e.call::<(), i32>("foo", ()).unwrap(), 2);
    assert_eq!(e.call::<(), i32>("foo", ()).unwrap(), 2);
    let g = e.group("foo").unwrap();
    assert_eq!(g.get(0).unwrap().count(), 0);
    assert_eq!(g.get(1).unwrap().count(), 2);
    assert_eq!(g.get(2).unwrap().count(), 0);
}

#[test]
fn predicate_decides_eligibility() {
    let mut e = ExpectationRegistry::new();
    e.expect::<i32, &'static str>("sign").with(|x| *x < 0).returning(|_| "negative");
    e.expect::<i32, &'static str>("sign").with(|x| *x == 0).returning(|_| "zero").times(1);
    e.expect::<i32, &'static str>("sign").with(|x| *x > 0).returning(|_| "positive");
    assert!(e.group("sign").unwrap().get(0).unwrap().has_predicate());
    assert_eq!(e.call::<i32, &'static str>("sign", 5).unwrap(), "positive");
    assert_eq!(e.call::<i32, &'static str>("sign", -5).unwrap(), "negative");
    assert_eq!(e.call::<i32, &'static str>("sign", 0).unwrap(), "zero");
    assert_eq!(e.call::<i32, &'static str>("sign", 0).unwrap_err().message(), no_match("sign"));
    let g = e.group("sign").unwrap();
    assert_eq!(g.get(0).unwrap().count(), 1);
    assert_eq!(g.get(1).unwrap().count(), 1);
    assert_eq!(g.get(2).unwrap().count(), 1);
}

#[test]
fn returning_again_replaces_the_behavior_and_keeps_the_counter() {
    let mut e = ExpectationRegistry::new();
    let tag = TypeTag::of::<(), i32>();
    ExpectationBuilder::<(), i32>::bind(e.register("foo", tag)).returning(|_| 1).times(3);
    assert_eq!(e.call::<(), i32>("foo", ()).unwrap(), 1);
    let mut again = Expectation::new();
    ExpectationBuilder::<(), i32>::bind(&mut again).returning(|_| 1).returning(|_| 2);
    assert_eq!(again.respond::<(), i32>(()), Some(2));
    assert_eq!(again.count(), 1);
    ExpectationBuilder::<(), i32>::bind(&mut again).returning(|_| 7);
    assert_eq!(again.count(), 1);
    assert_eq!(again.quota(), None);
    assert_eq!(again.respond::<(), i32>(()), Some(7));
    assert_eq!(again.count(), 2);
}

#[test]
fn other_signature_fails_with_type_mismatch() {
    let mut e = ExpectationRegistry::new();
    e.expect::<i32, u32>("foo").returning(|_| 42);
    for x in [i32::MIN, -1, 0, 5, i32::MAX] {
        match e.call::<i32, i32>("foo", x) {
            Err(MockError::TypeMismatch { id }) => assert_eq!(id, "foo"),
            _ => panic!("expected TypeMismatch"),
        }
    }
    assert_eq!(e.call::<u32, u32>("foo", 5).unwrap_err().message(), mismatch("foo"));
    assert_eq!(e.call::<(), ()>("foo", ()).unwrap_err().message(), mismatch("foo"));
    assert_eq!(e.group("foo").unwrap().get(0).unwrap().count(), 0);
    assert_eq!(e.call::<i32, u32>("foo", 5).unwrap(), 42);
}

#[test]
fn type_mismatch_comes_before_matching() {
    let mut e = ExpectationRegistry::new();
    e.expect::<i32, u32>("foo");
    assert_eq!(e.call::<i32, i32>("foo", 5).unwrap_err().message(), mismatch("foo"));
    assert_eq!(e.call::<i32, u32>("foo", 5).unwrap_err().message(), no_match("foo"));
}

#[test]
fn dispatch_checks_the_tag_it_is_given() {
    let mut e = ExpectationRegistry::new();
    e.expect::<i32, u32>("foo").returning(|_| 42);
    let right = TypeTag::of::<i32, u32>();
    let wrong = TypeTag::of::<u32, i32>();
    assert_eq!(e.dispatch::<i32, u32>("foo", wrong, 5).unwrap_err().message(), mismatch("foo"));
    assert_eq!(e.dispatch::<i32, u32>("foo", right, 5).unwrap(), 42);
    assert_eq!(e.dispatch::<i32, u32>("bar", right, 5).unwrap_err().message(), no_match("bar"));
    // The tag agrees with the group, the types do not agree with the behavior.
    assert_eq!(e.dispatch::<u8, u8>("foo", right, 5).unwrap_err().message(), mismatch("foo"));
    assert_eq!(e.group("foo").unwrap().get(0).unwrap().count(), 1);
}

#[test]
fn expectation_of_another_signature_is_caught_when_reached() {
    let mut e = ExpectationRegistry::new();
    e.expect::<i32, i32>("foo").returning(|x| x).times(1);
    e.expect::<u8, u8>("foo").returning(|x| x);
    assert!(e.group("foo").unwrap().tag().matches(&TypeTag::of::<i32, i32>()));
    assert_eq!(e.call::<i32, i32>("foo", 5).unwrap(), 5);
    assert_eq!(e.call::<i32, i32>("foo", 5).unwrap_err().message(), mismatch("foo"));
    assert_eq!(e.call::<u8, u8>("foo", 5).unwrap_err().message(), mismatch("foo"));
    assert_eq!(e.group("foo").unwrap().get(1).unwrap().count(), 0);
}

#[test]
fn predicate_of_another_signature_is_caught_when_reached() {
    let mut e = ExpectationRegistry::new();
    e.expect::<i32, i32>("foo").with(|x| *x > 0).returning(|x| x);
    e.expect::<u8, i32>("foo").with(|x| *x > 0).returning(|_| 0);
    assert_eq!(e.call::<i32, i32>("foo", 5).unwrap(), 5);
    assert_eq!(e.call::<i32, i32>("foo", -5).unwrap_err().message(), mismatch("foo"));
}

#[test]
fn type_tags_tell_signatures_apart() {
    let a = TypeTag::of::<i32, u32>();
    assert!(a.matches(&a));
    assert!(a.matches(&TypeTag::of::<i32, u32>()));
    assert!(!a.matches(&TypeTag::of::<u32, i32>()));
    assert!(!a.matches(&TypeTag::of::<i32, i32>()));
    assert!(!a.matches(&TypeTag::of::<(), ()>()));
    assert!(!TypeTag::of::<(i32,), u32>().matches(&a));
}

#[test]
fn same_configuration_same_outcome_for_every_arity() {
    type Sixteen = (u8, u8, u8, u8, u8, u8, u8, u8, u8, u8, u8, u8, u8, u8, u8, u8);
    let mut e = ExpectationRegistry::new();
    e.expect::<(), ()>("none").returning(|_| ()).times(2);
    e.expect::<Sixteen, ()>("many").returning(|_| ()).times(2);
    for _ in 0..2 {
        assert!(e.call::<(), ()>("none", ()).is_ok());
        assert!(e.call::<Sixteen, ()>("many", (0, 0, 0, 0, 0, 0, 0, 0, 0, 0, 0, 0, 0, 0, 0, 0))
            .is_ok());
    }
    assert_eq!(e.call::<(), ()>("none", ()).unwrap_err().message(), no_match("none"));
    assert_eq!(
        e.call::<Sixteen, ()>("many", (0, 0, 0, 0, 0, 0, 0, 0, 0, 0, 0, 0, 0, 0, 0, 0))
            .unwrap_err()
            .message(),
        no_match("many")
    );
    assert_eq!(e.call::<Sixteen, ()>("none", (0, 0, 0, 0, 0, 0, 0, 0, 0, 0, 0, 0, 0, 0, 0, 0))
        .unwrap_err()
        .message(), mismatch("none"));
    assert_eq!(e.call::<(), ()>("many", ()).unwrap_err().message(), mismatch("many"));
}

fn group_of(states: &[ExpectationState]) -> ExpectationGroup {
    let mut g = ExpectationGroup::new("foo".to_string(), TypeTag::of::<(), ()>());
    for s in states {
        let b = ExpectationBuilder::<(), ()>::bind(g.append());
        match s {
            ExpectationState::Unconfigured => {},
            ExpectationState::Configured => {
                b.returning(|_| ());
            },
            ExpectationState::Exhausted => {
                b.returning(|_| ()).times(0);
            },
        }
    }
    g
}

#[test]
fn resolve_picks_the_first_live_and_accepted() {
    let g = group_of(&[
        ExpectationState::Unconfigured,
        ExpectationState::Exhausted,
        ExpectationState::Configured,
        ExpectationState::Configured,
    ]);
    let yes = Some(true);
    let no = Some(false);
    assert_eq!(g.resolve(&vec![yes, yes, yes, yes]), Selection::Matched(2));
    assert_eq!(g.resolve(&vec![yes, yes, no, yes]), Selection::Matched(3));
    assert_eq!(g.resolve(&vec![yes, yes, no, no]), Selection::Unmatched);
    assert_eq!(g.resolve(&vec![None, None, no, yes]), Selection::Matched(3));
    assert_eq!(g.resolve(&vec![yes, yes, None, yes]), Selection::Mistyped(2));
    assert_eq!(g.resolve(&vec![yes, yes, no, None]), Selection::Mistyped(3));
    assert_eq!(g.resolve(&vec![yes, yes, yes]), Selection::Matched(2));
    assert_eq!(g.resolve(&vec![yes, yes]), Selection::Unmatched);
    assert_eq!(g.resolve(&Vec::new()), Selection::Unmatched);
    assert_eq!(g.resolve(&vec![yes, yes, no, yes, yes]), Selection::Matched(3));
    assert_eq!(group_of(&[]).resolve(&vec![yes]), Selection::Unmatched);
}

#[test]
fn consult_stops_at_the_first_that_does_not_decline() {
    let mut g = ExpectationGroup::new("foo".to_string(), TypeTag::of::<i32, ()>());
    ExpectationBuilder::<i32, ()>::bind(g.append()).with(|_| true);
    ExpectationBuilder::<i32, ()>::bind(g.append()).returning(|_| ()).with(|x| *x > 0);
    ExpectationBuilder::<i32, ()>::bind(g.append()).returning(|_| ()).with(|_| true).times(0);
    ExpectationBuilder::<i32, ()>::bind(g.append()).returning(|_| ()).with(|x| *x < 0);
    ExpectationBuilder::<u8, ()>::bind(g.append()).returning(|_| ()).with(|x| *x > 0);
    ExpectationBuilder::<i32, ()>::bind(g.append()).returning(|_| ());
    let no = Some(false);
    assert_eq!(g.consult::<i32>(&5), vec![no, Some(true)]);
    assert_eq!(g.consult::<i32>(&-5), vec![no, no, no, Some(true)]);
    assert_eq!(g.consult::<i32>(&0), vec![no, no, no, no, None]);
    assert_eq!(g.consult::<u8>(&5), vec![no, None]);
    assert_eq!(g.resolve(&g.consult::<i32>(&5)), Selection::Matched(1));
    assert_eq!(g.resolve(&g.consult::<i32>(&-5)), Selection::Matched(3));
    assert_eq!(g.resolve(&g.consult::<i32>(&0)), Selection::Mistyped(4));
    assert!(g.is_named(&"foo".to_string()));
    assert!(!g.is_named(&"fo".to_string()));
}

#[test]
fn consult_asks_no_predicate_that_cannot_decide() {
    let mut e = ExpectationRegistry::new();
    e.expect::<i32, i32>("foo").with(|_| panic!("unconfigured")).times(5);
    e.expect::<i32, i32>("foo").with(|_| panic!("exhausted")).returning(|x| x).times(0);
    e.expect::<i32, i32>("foo").returning(|x| x + 1);
    e.expect::<i32, i32>("foo").with(|_| panic!("after the match")).returning(|x| x);
    assert_eq!(e.call::<i32, i32>("foo", 1).unwrap(), 2);
    assert_eq!(
        e.group("foo").unwrap().consult::<i32>(&1),
        vec![Some(false), Some(false), Some(true)]
    );
}

#[test]
fn consult_without_eligible_expectation_declines_throughout() {
    let mut g = ExpectationGroup::new("foo".to_string(), TypeTag::of::<i32, ()>());
    assert_eq!(g.consult::<i32>(&5), Vec::new());
    ExpectationBuilder::<i32, ()>::bind(g.append());
    ExpectationBuilder::<i32, ()>::bind(g.append()).returning(|_| ()).with(|x| *x > 0);
    assert_eq!(g.consult::<i32>(&-5), vec![Some(false), Some(false)]);
    assert_eq!(g.resolve(&g.consult::<i32>(&-5)), Selection::Unmatched);
}

#[test]
fn serve_reports_why_it_refused() {
    let mut g = ExpectationGroup::new("foo".to_string(), TypeTag::of::<i32, i32>());
    assert_eq!(g.serve::<i32, i32>(1), Err(Refusal::Unmatched));
    ExpectationBuilder::<i32, i32>::bind(g.append()).returning(|x| x * 2).times(1);
    assert_eq!(g.serve::<u8, i32>(1), Err(Refusal::Mistyped));
    assert_eq!(g.get(0).unwrap().count(), 0);
    assert_eq!(g.serve::<i32, i32>(21), Ok(42));
    assert_eq!(g.get(0).unwrap().count(), 1);
    assert_eq!(g.serve::<i32, i32>(21), Err(Refusal::Unmatched));
}

#[test]
fn expectation_answers_only_for_its_own_signature() {
    let mut x = Expectation::new();
    assert_eq!(x.respond::<i32, i32>(1), None);
    assert_eq!(x.admits::<i32>(&1), Some(true));
    ExpectationBuilder::<i32, i32>::bind(&mut x).returning(|x| x + 1).with(|x| *x != 0);
    assert_eq!(x.admits::<i32>(&1), Some(true));
    assert_eq!(x.admits::<i32>(&0), Some(false));
    assert_eq!(x.admits::<i64>(&1), None);
    assert_eq!(x.respond::<i32, i64>(1), None);
    assert_eq!(x.respond::<i64, i32>(1), None);
    assert_eq!(x.count(), 0);
    assert_eq!(x.respond::<i32, i32>(1), Some(2));
    assert_eq!(x.count(), 1);
}

#[test]
fn error_messages_name_the_method() {
    let a = MockError::NoMatchingExpectation { id: "foo".to_string() };
    let b = MockError::TypeMismatch { id: "bar::baz".to_string() };
    assert_eq!(a.message(), "No matching expectation found for foo");
    assert_eq!(b.message(), "Mismatched argument or return types for bar::baz");
    assert_eq!(a.id(), "foo");
    assert_eq!(b.id(), "bar::baz");
}

#[test]
fn record_counts_answered_calls_only() {
    let mut x = Expectation::new();
    assert_eq!(x.record(Some(7)), Some(7));
    assert_eq!(x.count(), 1);
    assert_eq!(x.record::<i32>(None), None);
    assert_eq!(x.count(), 1);
    assert_eq!(x.record(Some("seven")), Some("seven"));
    assert_eq!(x.count(), 2);
    assert_eq!(x.state(), ExpectationState::Unconfigured);
}

#[test]
fn conclude_hands_the_value_through_and_names_the_failure() {
    assert_eq!(ExpectationRegistry::conclude("foo", Ok::<i32, Refusal>(3)), Ok(3));
    assert_eq!(
        ExpectationRegistry::conclude::<i32>("foo", Err(Refusal::Unmatched)),
        Err(MockError::NoMatchingExpectation { id: "foo".to_string() })
    );
    assert_eq!(
        ExpectationRegistry::conclude::<i32>("foo", Err(Refusal::Mistyped)),
        Err(MockError::TypeMismatch { id: "foo".to_string() })
    );
}
