//! Expecting an attempt to have failed, perhaps with a given message.
use vstd::prelude::*;
use vstd::string::StringExecFns;
use vstd::std_specs::convert::IntoSpec;
use crate::text::{occurs_in, text_contains};
use super::expectation::Expectation;
use super::outcome::Outcome;
use super::show::{debug_quoted, quoted};

verus! {

/// Expects a failed outcome; with `expected`, one whose message contains it.
pub struct Fails {
    pub expected: Option<String>,
}

/// Whether `value` meets the expectation of a failure whose message
/// contains `expected`, if that is given.
pub open spec fn fails_test(expected: Option<Seq<char>>, value: Outcome) -> bool {
    match value {
        Outcome::Success => false,
        Outcome::Failure(actual) => match expected {
            None => true,
            Some(e) => occurs_in(actual@, e),
        },
    }
}

/// The message for an outcome that does not meet the expectation.
pub open spec fn fails_message(expected: Option<Seq<char>>, value: Outcome) -> Seq<char> {
    match value {
        Outcome::Success => "expected a failure but got success"@,
        Outcome::Failure(actual) => match expected {
            None => "expected failure, got: "@ + actual@,
            Some(e) => "expected failure containing "@ + debug_quoted(e) + ", got: "@ + actual@,
        },
    }
}

/// The text of an optional `String`.
pub open spec fn expected_view(expected: Option<String>) -> Option<Seq<char>> {
    match expected {
        Some(s) => Some(s@),
        None => None,
    }
}

/// Expects a failed outcome, whatever its message.
pub fn fails() -> (r: Fails)
    ensures
        r.expected is None,
{
    Fails { expected: None }
}

impl Fails {
    /// Expects, moreover, a message that contains `msg`.
    pub fn with_error<S: Into<String>>(self, msg: S) -> (r: Fails)
        ensures
            r.expected is Some,
            r.expected matches Some(text) && call_ensures(S::into, (msg,), text),
            S::obeys_into_spec() ==> r.expected == Some(msg.into_spec()),
    {
        let text = msg.into();
        assert(call_ensures(S::into, (msg,), text));
        Fails { expected: Some(text) }
    }
}

impl Expectation<Outcome> for Fails {
    fn test(&self, value: &Outcome) -> (r: bool)
        ensures
            r == fails_test(expected_view(self.expected), *value),
    {
        match value {
            Outcome::Success => false,
            Outcome::Failure(actual) => match &self.expected {
                None => true,
                Some(e) => text_contains(actual.as_str(), e.as_str()),
            },
        }
    }

    fn message(&self, value: &Outcome) -> (r: String)
        ensures
            r@ == fails_message(expected_view(self.expected), *value),
    {
        proof {
            reveal_strlit("expected a failure but got success");
            reveal_strlit("expected failure, got: ");
            reveal_strlit("expected failure containing ");
            reveal_strlit(", got: ");
        }
        match value {
            Outcome::Success => String::from_str("expected a failure but got success"),
            Outcome::Failure(actual) => match &self.expected {
                None => {
                    let mut s = String::from_str("expected failure, got: ");
                    s.append(actual.as_str());
                    s
                },
                Some(e) => {
                    let mut s = String::from_str("expected failure containing ");
                    let q = quoted(e.as_str());
                    s.append(q.as_str());
                    s.append(", got: ");
                    s.append(actual.as_str());
                    s
                },
            },
        }
    }
}

} // verus!
