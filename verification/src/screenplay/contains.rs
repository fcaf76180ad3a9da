//! Expecting a text to hold a given piece of text.
use vstd::prelude::*;
use vstd::string::StringExecFns;
use vstd::std_specs::convert::IntoSpec;
use crate::text::{occurs_in, text_contains};
use super::expectation::Expectation;
use super::show::{debug_quoted, quoted};

verus! {

/// Expects a `String` that contains `expected`.
pub struct Contains {
    pub expected: String,
}

/// Whether a contains expectation with `expected` passes on `value`.
pub open spec fn contains_passes(expected: Seq<char>, value: Seq<char>) -> bool {
    occurs_in(value, expected)
}

/// The message for a `value` that lacks `expected`.
pub open spec fn contains_message(expected: Seq<char>, value: Seq<char>) -> Seq<char> {
    "Expected output to contain "@ + debug_quoted(expected) + ", but got:\n"@ + value
}

impl Expectation<String> for Contains {
    fn test(&self, value: &String) -> (r: bool)
        ensures
            r == contains_passes(self.expected@, value@),
    {
        text_contains(value.as_str(), self.expected.as_str())
    }

    fn message(&self, value: &String) -> (r: String)
        ensures
            r@ == contains_message(self.expected@, value@),
    {
        let mut s = String::from_str("Expected output to contain ");
        let q = quoted(self.expected.as_str());
        s.append(q.as_str());
        s.append(", but got:\n");
        s.append(value.as_str());
        proof {
            reveal_strlit("Expected output to contain ");
            reveal_strlit(", but got:\n");
        }
        s
    }
}

/// Expects a `String` that contains `expected`.
pub fn contains<S: Into<String>>(expected: S) -> (r: Contains)
    ensures
        call_ensures(S::into, (expected,), r.expected),
        S::obeys_into_spec() ==> r.expected == expected.into_spec(),
{
    let text = expected.into();
    assert(call_ensures(S::into, (expected,), text));
    Contains { expected: text }
}

} // verus!
