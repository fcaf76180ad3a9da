//! `Debug` text of values, as failure messages show them.
use vstd::prelude::*;
use std::fmt::Debug;

verus! {

/// `format!("{:?}", s)` for a text: quoted, with special characters escaped.
pub uninterp spec fn debug_quoted(s: Seq<char>) -> Seq<char>;

/// `format!("{:?}", s)` for a `str`, which quotes it and escapes what its
/// `Debug` implementation escapes.
#[verifier::external_body]
pub(crate) fn quoted(s: &str) -> (r: String)
    ensures
        r@ == debug_quoted(s@),
{
    format!("{:?}", s)
}

/// `format!("{:?}", value)`. Nothing is stated of the text: it is whatever
/// the value's `Debug` implementation writes.
#[verifier::external_body]
pub(crate) fn debug_text<T: Debug>(value: &T) -> String {
    format!("{:?}", value)
}

/// `text` is what `format!("{:?}", value)` can give: the text the value's
/// `Debug` implementation writes.
pub closed spec fn shows<T: Debug>(value: &T, text: String) -> bool {
    call_ensures(debug_text::<T>, (value,), text)
}

/// The `Debug` text of `value`.
pub(crate) fn shown<T: Debug>(value: &T) -> (r: String)
    ensures
        shows(value, r),
{
    let text = debug_text(value);
    assert(call_ensures(debug_text::<T>, (value,), text));
    text
}

} // verus!
