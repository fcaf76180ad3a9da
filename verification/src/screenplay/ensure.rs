//! `Ensure`: a question paired with an expectation, performed as an interaction.
use vstd::prelude::*;
use std::marker::PhantomData;
use super::actor::Actor;
use super::expectation::Expectation;
use super::interaction::Interaction;
use super::question::Question;

verus! {

/// Asks `question` and holds the answer to `expectation`; performing it
/// fails, with the expectation's message, when the answer does not meet it.
pub struct Ensure<Q, E, T> {
    pub question: Q,
    pub expectation: E,
    pub marker: PhantomData<T>,
}

/// Every answer `question` can give `actor` meets `expectation`.
pub open spec fn always_met<Q: Question<T>, E: Expectation<T>, T>(
    question: &Q,
    expectation: &E,
    actor: &Actor,
) -> bool {
    forall|answer: T, passed: bool|
        #![trigger call_ensures(Q::answered_by, (question, actor), answer), call_ensures(E::test, (expectation, &answer), passed)]
        call_ensures(Q::answered_by, (question, actor), answer) && call_ensures(
            E::test,
            (expectation, &answer),
            passed,
        ) ==> passed
}

impl<Q, E, T> Ensure<Q, E, T> {
    /// The interaction that checks the answer to `question` against
    /// `expectation`.
    pub fn that(question: Q, expectation: E) -> (r: Self)
        where
            Q: Question<T>,
            E: Expectation<T>,
        ensures
            r.question == question,
            r.expectation == expectation,
    {
        Ensure { question, expectation, marker: PhantomData }
    }
}

impl<Q: Question<T>, E: Expectation<T>, T> Ensure<Q, E, T> {
    /// Asks the question as `actor` and tests the answer: `Ok` when the
    /// expectation is met, otherwise `Err` with its message for that answer.
    pub fn check(&self, actor: &Actor) -> (r: Result<(), String>)
        ensures
            r is Ok ==> exists|answer: T|
                call_ensures(Q::answered_by, (&self.question, actor), answer)
                    && #[trigger] call_ensures(E::test, (&self.expectation, &answer), true),
            r matches Err(m) ==> exists|answer: T|
                call_ensures(Q::answered_by, (&self.question, actor), answer)
                    && call_ensures(E::test, (&self.expectation, &answer), false)
                    && #[trigger] call_ensures(E::message, (&self.expectation, &answer), m),
    {
        let answer = self.question.answered_by(actor);
        assert(call_ensures(Q::answered_by, (&self.question, actor), answer));
        let passed = self.expectation.test(&answer);
        if passed {
            assert(call_ensures(E::test, (&self.expectation, &answer), true));
            Ok(())
        } else {
            assert(call_ensures(E::test, (&self.expectation, &answer), false));
            let message = self.expectation.message(&answer);
            assert(call_ensures(E::message, (&self.expectation, &answer), message));
            assert(exists|a: T|
                call_ensures(Q::answered_by, (&self.question, actor), a)
                    && call_ensures(E::test, (&self.expectation, &a), false)
                    && #[trigger] call_ensures(E::message, (&self.expectation, &a), message));
            let r: Result<(), String> = Err(message);
            assert(r matches Err(m) && m == message);
            r
        }
    }
}

impl<Q: Question<T>, E: Expectation<T>, T> Interaction for Ensure<Q, E, T> {
    /// The ensure succeeds when every answer the question can give meets
    /// the expectation.
    open spec fn succeeds_for(&self, actor: &Actor) -> bool {
        always_met(&self.question, &self.expectation, actor)
    }

    /// Asks the question and tests the answer. Where the answer fails, it
    /// panics with the expectation's message for it (`Option::expect` on
    /// `None`), which the contract leaves out.
    fn perform_as(&self, actor: &Actor) {
        let answer = self.question.answered_by(actor);
        assert(call_ensures(Q::answered_by, (&self.question, actor), answer));
        let passed = self.expectation.test(&answer);
        assert(call_ensures(E::test, (&self.expectation, &answer), passed));
        if !passed {
            let message = self.expectation.message(&answer);
            Option::<()>::None.expect(message.as_str());
        }
    }
}

} // verus!
