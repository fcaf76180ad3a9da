//! The common shape of command handlers.
use vstd::prelude::*;
use crate::error::GError;

verus! {

/// Something that carries out one command for an input.
pub trait Handler<T> {
    fn handle(&self, input: T) -> Result<(), GError>;
}

} // verus!
