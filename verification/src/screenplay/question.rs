//! Questions: what an actor can find out.
use vstd::prelude::*;
use super::actor::Actor;

verus! {

/// Finds something out through an actor's abilities; `T` is the answer.
pub trait Question<T> {
    fn answered_by(&self, actor: &Actor) -> T;
}

} // verus!
