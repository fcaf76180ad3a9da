//! Expectations: predicates on answers, with a message for when they fail.
use vstd::prelude::*;
use vstd::string::StringExecFns;
use std::fmt::Debug;
use vstd::std_specs::cmp::{PartialEqSpec, PartialOrdSpec};
use super::show::{shown, shows};

verus! {

/// A predicate on values of type `T`, with a message for a value that fails it.
pub trait Expectation<T> {
    /// Whether `value` meets the expectation.
    fn test(&self, value: &T) -> bool;

    /// What to say of a `value` that does not.
    fn message(&self, value: &T) -> String;
}

/// Expects `true`.
pub struct IsTrue;

/// Expects `false`.
pub struct IsFalse;

/// Expects a value equal to `expected`.
pub struct Equals<T> {
    pub expected: T,
}

/// Expects a value strictly greater than `expected`.
pub struct IsGreaterThan<T> {
    pub expected: T,
}

impl Expectation<bool> for IsTrue {
    fn test(&self, value: &bool) -> (r: bool)
        ensures
            r == *value,
    {
        *value
    }

    fn message(&self, value: &bool) -> (r: String)
        ensures
            r@ == "Expected true, but got false"@,
    {
        String::from_str("Expected true, but got false")
    }
}

impl Expectation<bool> for IsFalse {
    fn test(&self, value: &bool) -> (r: bool)
        ensures
            r == !*value,
    {
        !*value
    }

    fn message(&self, value: &bool) -> (r: String)
        ensures
            r@ == "Expected false, but got true"@,
    {
        String::from_str("Expected false, but got true")
    }
}

impl<T: PartialEq + Debug + 'static> Expectation<T> for Equals<T> {
    fn test(&self, value: &T) -> (r: bool)
        ensures
            call_ensures(T::eq, (value, &self.expected), r),
            T::obeys_eq_spec() ==> r == value.eq_spec(&self.expected),
    {
        let r = *value == self.expected;
        assert(call_ensures(T::eq, (value, &self.expected), r));
        r
    }

    /// `Expected {value:?} to equal {expected:?}`.
    fn message(&self, value: &T) -> (r: String)
        ensures
            exists|a: String, b: String|
                #![trigger shows(value, a), shows(&self.expected, b)]
                shows(value, a) && shows(&self.expected, b) && r@ == "Expected "@ + a@ + " to equal "@ + b@,
    {
        let mut s = String::from_str("Expected ");
        let a = shown(value);
        s.append(a.as_str());
        s.append(" to equal ");
        let b = shown(&self.expected);
        s.append(b.as_str());
        assert(s@ == "Expected "@ + a@ + " to equal "@ + b@);
        assert(shows(value, a) && shows(&self.expected, b));
        s
    }
}

impl<T: PartialOrd + Debug + 'static> Expectation<T> for IsGreaterThan<T> {
    fn test(&self, value: &T) -> (r: bool)
        ensures
            T::obeys_partial_cmp_spec() ==> r == (value.partial_cmp_spec(&self.expected) == Some(
                core::cmp::Ordering::Greater,
            )),
            call_ensures(T::gt, (value, &self.expected), r),
    {
        let r = *value > self.expected;
        assert(call_ensures(T::gt, (value, &self.expected), r));
        r
    }

    /// `Expected {value:?} to be greater than {expected:?}`.
    fn message(&self, value: &T) -> (r: String)
        ensures
            exists|a: String, b: String|
                #![trigger shows(value, a), shows(&self.expected, b)]
                shows(value, a) && shows(&self.expected, b) && r@ == "Expected "@ + a@ + " to be greater than "@ + b@,
    {
        let mut s = String::from_str("Expected ");
        let a = shown(value);
        s.append(a.as_str());
        s.append(" to be greater than ");
        let b = shown(&self.expected);
        s.append(b.as_str());
        assert(s@ == "Expected "@ + a@ + " to be greater than "@ + b@);
        assert(shows(value, a) && shows(&self.expected, b));
        s
    }
}

/// Expects a `bool` to be `true`.
pub fn is_true() -> (r: IsTrue) {
    IsTrue
}

/// Expects a `bool` to be `false`.
pub fn is_false() -> (r: IsFalse) {
    IsFalse
}

/// Expects a value equal to `expected`.
pub fn equals<T: PartialEq + Debug + 'static>(expected: T) -> (r: Equals<T>)
    ensures
        r.expected == expected,
{
    Equals { expected }
}

/// Expects a value strictly greater than `expected`.
pub fn is_greater_than<T: PartialOrd + Debug + 'static>(expected: T) -> (r: IsGreaterThan<T>)
    ensures
        r.expected == expected,
{
    IsGreaterThan { expected }
}

} // verus!
