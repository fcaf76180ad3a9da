use std::cell::{Cell, RefCell};

use g_cli::screenplay::ability::Ability;
use g_cli::screenplay::actor::Actor;
use g_cli::screenplay::contains::contains;
use g_cli::screenplay::does_not_contain::does_not_contain;
use g_cli::screenplay::ensure::Ensure;
use g_cli::screenplay::expectation::{equals, is_false, is_greater_than, is_true, Expectation};
use g_cli::screenplay::fails::fails;
use g_cli::screenplay::interaction::Interaction;
use g_cli::screenplay::outcome::Outcome;
use g_cli::screenplay::question::Question;

struct Logging;
impl Ability for Logging {}

struct FlagInteraction<'a> {
    flag: &'a Cell<bool>,
}
impl Interaction for FlagInteraction<'_> {
    fn perform_as(&self, _actor: &Actor) {
        self.flag.set(true);
    }
}

struct ConstantQuestion<T> {
    value: T,
}
impl<T: Clone> Question<T> for ConstantQuestion<T> {
    fn answered_by(&self, _actor: &Actor) -> T {
        self.value.clone()
    }
}

#[test]
fn actor_starts_with_no_abilities() {
    let actor = Actor::new();
    assert!(actor.ability::<Logging>().is_none());
}

#[test]
fn who_can_adds_and_retrieves_ability() {
    let actor = Actor::new().who_can(Logging);
    assert!(actor.ability::<Logging>().is_some());
}

#[test]
fn who_can_replaces_same_type_ability() {
    struct Counter(i32);
    impl Ability for Counter {}

    let actor = Actor::new().who_can(Counter(1)).who_can(Counter(99));

    let counter = actor.ability::<Counter>().unwrap();
    assert_eq!(counter.0, 99);
}

#[test]
fn actor_default_is_empty() {
    let actor: Actor = Default::default();
    assert!(actor.ability::<Logging>().is_none());
}

#[test]
fn attempts_to_single_interaction() {
    let called = Cell::new(false);
    let actor = Actor::new();
    actor.attempts_to((FlagInteraction { flag: &called },));
    assert!(called.get());
}

#[test]
fn attempts_to_executes_in_order() {
    let log = RefCell::new(Vec::new());

    struct A<'a>(&'a RefCell<Vec<i32>>, i32);
    impl Interaction for A<'_> {
        fn perform_as(&self, _actor: &Actor) {
            self.0.borrow_mut().push(self.1);
        }
    }

    let actor = Actor::new();
    actor.attempts_to((A(&log, 1), A(&log, 2), A(&log, 3)));

    assert_eq!(*log.borrow(), vec![1, 2, 3]);
}

#[test]
fn attempts_to_10_interactions() {
    let count = Cell::new(0);

    struct Bump<'a>(&'a Cell<i32>);
    impl Interaction for Bump<'_> {
        fn perform_as(&self, _actor: &Actor) {
            self.0.set(self.0.get() + 1);
        }
    }

    let actor = Actor::new();
    actor.attempts_to((
        Bump(&count),
        Bump(&count),
        Bump(&count),
        Bump(&count),
        Bump(&count),
        Bump(&count),
        Bump(&count),
        Bump(&count),
        Bump(&count),
        Bump(&count),
    ));

    assert_eq!(count.get(), 10);
}

#[test]
fn is_true_passes() {
    let e = is_true();
    assert!(e.test(&true));
    assert!(!e.test(&false));
    assert!(e.message(&false).contains("false"));
}

#[test]
fn equals_passes() {
    let e = equals(42);
    assert!(e.test(&42));
    assert!(!e.test(&99));
    assert!(e.message(&99).contains("99"));
    assert!(e.message(&99).contains("42"));
}

#[test]
fn is_greater_than_passes() {
    let e = is_greater_than(10);
    assert!(e.test(&42));
    assert!(!e.test(&5));
    assert!(!e.test(&10));
    let msg = e.message(&5);
    assert!(msg.contains("5"));
    assert!(msg.contains("10"));
}

#[test]
fn ensure_passes_when_expectation_met() {
    let actor = Actor::new();
    actor.attempts_to((Ensure::that(ConstantQuestion { value: 42 }, equals(42)),));
}

#[test]
#[should_panic(expected = "Expected 99 to equal 42")]
fn ensure_panics_when_expectation_not_met() {
    let actor = Actor::new();
    actor.attempts_to((Ensure::that(ConstantQuestion { value: 99 }, equals(42)),));
}

#[test]
#[should_panic(expected = "Expected true, but got false")]
fn ensure_is_true_panics_with_message() {
    let actor = Actor::new();
    actor.attempts_to((Ensure::that(ConstantQuestion { value: false }, is_true()),));
}

#[test]
#[should_panic(expected = "Expected 5 to be greater than 10")]
fn ensure_is_greater_than_panics_with_message() {
    let actor = Actor::new();
    actor.attempts_to((Ensure::that(ConstantQuestion { value: 5 }, is_greater_than(10)),));
}

#[test]
fn interaction_can_access_actor_abilities() {
    struct Counter(i32);
    impl Ability for Counter {}

    let log = RefCell::new(Vec::new());

    struct InspectAbility<'a>(&'a RefCell<Vec<i32>>);
    impl Interaction for InspectAbility<'_> {
        fn perform_as(&self, actor: &Actor) {
            let counter = actor.ability::<Counter>().unwrap();
            self.0.borrow_mut().push(counter.0);
        }
    }

    let actor = Actor::new().who_can(Counter(77));
    actor.attempts_to((InspectAbility(&log),));

    assert_eq!(*log.borrow(), vec![77]);
}

// ── Further cases ──

#[test]
fn actor_is_unnamed_and_keeps_abilities_of_several_types() {
    struct Counter(i32);
    impl Ability for Counter {}

    let actor = Actor::new().who_can(Counter(3)).who_can(Logging).who_can(Counter(4));
    assert_eq!(actor.name(), "");
    assert!(actor.ability::<Logging>().is_some());
    assert_eq!(actor.ability::<Counter>().unwrap().0, 4);
}

#[test]
fn is_false_tests_and_explains() {
    let e = is_false();
    assert!(e.test(&false));
    assert!(!e.test(&true));
    assert_eq!(e.message(&true), "Expected false, but got true");
    assert_eq!(is_true().message(&false), "Expected true, but got false");
}

#[test]
fn equals_and_greater_messages_are_exact() {
    assert_eq!(equals(42).message(&99), "Expected 99 to equal 42");
    assert_eq!(is_greater_than(10).message(&5), "Expected 5 to be greater than 10");
    assert_eq!(equals("a".to_string()).message(&"b".to_string()), "Expected \"b\" to equal \"a\"");
}

#[test]
fn ensure_check_reports_the_message() {
    let actor = Actor::new();
    let passing = Ensure::that(ConstantQuestion { value: 7 }, equals(7));
    assert_eq!(passing.check(&actor), Ok(()));
    let failing = Ensure::that(ConstantQuestion { value: 99 }, equals(42));
    assert_eq!(failing.check(&actor), Err("Expected 99 to equal 42".to_string()));
}

#[test]
fn contains_tests_substrings() {
    let e = contains("hello");
    assert!(e.test(&"hello world".to_string()));
    assert!(e.test(&"say hello".to_string()));
    assert!(!e.test(&"help".to_string()));
    assert!(contains("").test(&String::new()));
    assert_eq!(
        e.message(&"bye".to_string()),
        "Expected output to contain \"hello\", but got:\nbye"
    );
}

#[test]
fn does_not_contain_tests_substrings() {
    let e = does_not_contain("goodbye");
    assert!(e.test(&"hello world".to_string()));
    assert!(!e.test(&"goodbye world".to_string()));
    assert_eq!(
        e.message(&"goodbye".to_string()),
        "Expected output NOT to contain \"goodbye\", but got:\ngoodbye"
    );
}

#[test]
fn contains_inside_ensure() {
    let actor = Actor::new();
    actor.attempts_to((
        Ensure::that(ConstantQuestion { value: "hello world".to_string() }, contains("hello")),
        Ensure::that(ConstantQuestion { value: "hello world".to_string() }, does_not_contain("bye")),
    ));
}

#[test]
fn fails_matches_failures() {
    let any = fails();
    assert!(any.test(&Outcome::Failure("boom".to_string())));
    assert!(!any.test(&Outcome::Success));
    let with = fails().with_error("boom");
    assert!(with.test(&Outcome::Failure("big boom here".to_string())));
    assert!(!with.test(&Outcome::Failure("fizzle".to_string())));
    assert!(!with.test(&Outcome::Success));
}

#[test]
fn fails_messages_are_exact() {
    assert_eq!(fails().message(&Outcome::Success), "expected a failure but got success");
    assert_eq!(
        fails().message(&Outcome::Failure("oops".to_string())),
        "expected failure, got: oops"
    );
    assert_eq!(
        fails().with_error("boom").message(&Outcome::Failure("oops".to_string())),
        "expected failure containing \"boom\", got: oops"
    );
}

#[test]
fn does_not_contain_is_the_negation_of_contains() {
    for value in ["hello world", "goodbye", "", "say goodbye now"] {
        let v = value.to_string();
        assert_eq!(does_not_contain("goodbye").test(&v), !contains("goodbye").test(&v));
    }
}
