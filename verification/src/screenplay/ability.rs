//! Abilities: what an actor can use.
use vstd::prelude::*;

verus! {

/// Something an [`Actor`](super::actor::Actor) can be given and use later.
/// Abilities are `'static` so an actor can keep them by type.
pub trait Ability: 'static {

}

} // verus!
