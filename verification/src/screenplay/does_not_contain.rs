//! Expecting a text not to hold a given piece of text.
use vstd::prelude::*;
use vstd::string::StringExecFns;
use vstd::std_specs::convert::IntoSpec;
use crate::text::{occurs_in, text_contains};
use super::contains::contains_passes;
use super::expectation::Expectation;
use super::show::{debug_quoted, quoted};

verus! {

/// Expects a `String` that does not contain `expected`.
pub struct DoesNotContain {
    pub expected: String,
}

/// Whether a does-not-contain expectation with `expected` passes on `value`.
pub open spec fn absent_passes(expected: Seq<char>, value: Seq<char>) -> bool {
    !occurs_in(value, expected)
}

/// Law: for the same expected text, a does-not-contain expectation passes
/// on a value exactly where a contains expectation fails on it.
pub proof fn lemma_does_not_contain_negates_contains(expected: Seq<char>, value: Seq<char>)
    ensures
        absent_passes(expected, value) == !contains_passes(expected, value),
{
}

/// The message for a `value` that holds `expected`.
pub open spec fn absent_message(expected: Seq<char>, value: Seq<char>) -> Seq<char> {
    "Expected output NOT to contain "@ + debug_quoted(expected) + ", but got:\n"@ + value
}

impl Expectation<String> for DoesNotContain {
    fn test(&self, value: &String) -> (r: bool)
        ensures
            r == absent_passes(self.expected@, value@),
    {
        !text_contains(value.as_str(), self.expected.as_str())
    }

    fn message(&self, value: &String) -> (r: String)
        ensures
            r@ == absent_message(self.expected@, value@),
    {
        let mut s = String::from_str("Expected output NOT to contain ");
        let q = quoted(self.expected.as_str());
        s.append(q.as_str());
        s.append(", but got:\n");
        s.append(value.as_str());
        proof {
            reveal_strlit("Expected output NOT to contain ");
            reveal_strlit(", but got:\n");
        }
        s
    }
}

/// Expects a `String` that does not contain `expected`.
pub fn does_not_contain<S: Into<String>>(expected: S) -> (r: DoesNotContain)
    ensures
        call_ensures(S::into, (expected,), r.expected),
        S::obeys_into_spec() ==> r.expected == expected.into_spec(),
{
    let text = expected.into();
    assert(call_ensures(S::into, (expected,), text));
    DoesNotContain { expected: text }
}

} // verus!
