//! Interactions: what an actor can do, alone or several in a row.
use vstd::prelude::*;
use super::actor::Actor;

verus! {

/// An action an actor performs.
pub trait Interaction {
    /// `actor` can perform the interaction without it failing; an
    /// interaction that cannot fail keeps this default.
    open spec fn succeeds_for(&self, actor: &Actor) -> bool {
        true
    }

    /// Performs the interaction as `actor`. An interaction that fails
    /// panics; performing it is owed only where it succeeds.
    fn perform_as(&self, actor: &Actor)
        requires
            self.succeeds_for(actor),
    ;
}

/// A tuple of interactions (one to ten), performed in order.
pub trait Interactions {
    /// Each of the interactions succeeds for `actor`.
    spec fn all_succeed_for(&self, actor: &Actor) -> bool;

    /// Performs each interaction as `actor`, in order.
    fn perform_all(&self, actor: &Actor)
        requires
            self.all_succeed_for(actor),
    ;
}

impl<A0: Interaction> Interactions for (A0,) {
    open spec fn all_succeed_for(&self, actor: &Actor) -> bool {
        self.0.succeeds_for(actor)
    }

    fn perform_all(&self, actor: &Actor) {
        self.0.perform_as(actor);
    }
}

impl<A0: Interaction, A1: Interaction> Interactions for (A0, A1) {
    open spec fn all_succeed_for(&self, actor: &Actor) -> bool {
        self.0.succeeds_for(actor) && self.1.succeeds_for(actor)
    }

    fn perform_all(&self, actor: &Actor) {
        self.0.perform_as(actor);
        self.1.perform_as(actor);
    }
}

impl<A0: Interaction, A1: Interaction, A2: Interaction> Interactions for (A0, A1, A2) {
    open spec fn all_succeed_for(&self, actor: &Actor) -> bool {
        self.0.succeeds_for(actor) && self.1.succeeds_for(actor) && self.2.succeeds_for(actor)
    }

    fn perform_all(&self, actor: &Actor) {
        self.0.perform_as(actor);
        self.1.perform_as(actor);
        self.2.perform_as(actor);
    }
}

impl<A0: Interaction, A1: Interaction, A2: Interaction, A3: Interaction> Interactions for (
    A0,
    A1,
    A2,
    A3,
) {
    open spec fn all_succeed_for(&self, actor: &Actor) -> bool {
        self.0.succeeds_for(actor) && self.1.succeeds_for(actor) && self.2.succeeds_for(actor) && self.3.succeeds_for(actor)
    }

    fn perform_all(&self, actor: &Actor) {
        self.0.perform_as(actor);
        self.1.perform_as(actor);
        self.2.perform_as(actor);
        self.3.perform_as(actor);
    }
}

impl<
    A0: Interaction,
    A1: Interaction,
    A2: Interaction,
    A3: Interaction,
    A4: Interaction,
> Interactions for (A0, A1, A2, A3, A4) {
    open spec fn all_succeed_for(&self, actor: &Actor) -> bool {
        self.0.succeeds_for(actor) && self.1.succeeds_for(actor) && self.2.succeeds_for(actor) && self.3.succeeds_for(actor) && self.4.succeeds_for(actor)
    }

    fn perform_all(&self, actor: &Actor) {
        self.0.perform_as(actor);
        self.1.perform_as(actor);
        self.2.perform_as(actor);
        self.3.perform_as(actor);
        self.4.perform_as(actor);
    }
}

impl<
    A0: Interaction,
    A1: Interaction,
    A2: Interaction,
    A3: Interaction,
    A4: Interaction,
    A5: Interaction,
> Interactions for (A0, A1, A2, A3, A4, A5) {
    open spec fn all_succeed_for(&self, actor: &Actor) -> bool {
        self.0.succeeds_for(actor) && self.1.succeeds_for(actor) && self.2.succeeds_for(actor) && self.3.succeeds_for(actor) && self.4.succeeds_for(actor) && self.5.succeeds_for(actor)
    }

    fn perform_all(&self, actor: &Actor) {
        self.0.perform_as(actor);
        self.1.perform_as(actor);
        self.2.perform_as(actor);
        self.3.perform_as(actor);
        self.4.perform_as(actor);
        self.5.perform_as(actor);
    }
}

impl<
    A0: Interaction,
    A1: Interaction,
    A2: Interaction,
    A3: Interaction,
    A4: Interaction,
    A5: Interaction,
    A6: Interaction,
> Interactions for (A0, A1, A2, A3, A4, A5, A6) {
    open spec fn all_succeed_for(&self, actor: &Actor) -> bool {
        self.0.succeeds_for(actor) && self.1.succeeds_for(actor) && self.2.succeeds_for(actor) && self.3.succeeds_for(actor) && self.4.succeeds_for(actor) && self.5.succeeds_for(actor) && self.6.succeeds_for(actor)
    }

    fn perform_all(&self, actor: &Actor) {
        self.0.perform_as(actor);
        self.1.perform_as(actor);
        self.2.perform_as(actor);
        self.3.perform_as(actor);
        self.4.perform_as(actor);
        self.5.perform_as(actor);
        self.6.perform_as(actor);
    }
}

impl<
    A0: Interaction,
    A1: Interaction,
    A2: Interaction,
    A3: Interaction,
    A4: Interaction,
    A5: Interaction,
    A6: Interaction,
    A7: Interaction,
> Interactions for (A0, A1, A2, A3, A4, A5, A6, A7) {
    open spec fn all_succeed_for(&self, actor: &Actor) -> bool {
        self.0.succeeds_for(actor) && self.1.succeeds_for(actor) && self.2.succeeds_for(actor) && self.3.succeeds_for(actor) && self.4.succeeds_for(actor) && self.5.succeeds_for(actor) && self.6.succeeds_for(actor) && self.7.succeeds_for(actor)
    }

    fn perform_all(&self, actor: &Actor) {
        self.0.perform_as(actor);
        self.1.perform_as(actor);
        self.2.perform_as(actor);
        self.3.perform_as(actor);
        self.4.perform_as(actor);
        self.5.perform_as(actor);
        self.6.perform_as(actor);
        self.7.perform_as(actor);
    }
}

impl<
    A0: Interaction,
    A1: Interaction,
    A2: Interaction,
    A3: Interaction,
    A4: Interaction,
    A5: Interaction,
    A6: Interaction,
    A7: Interaction,
    A8: Interaction,
> Interactions for (A0, A1, A2, A3, A4, A5, A6, A7, A8) {
    open spec fn all_succeed_for(&self, actor: &Actor) -> bool {
        self.0.succeeds_for(actor) && self.1.succeeds_for(actor) && self.2.succeeds_for(actor) && self.3.succeeds_for(actor) && self.4.succeeds_for(actor) && self.5.succeeds_for(actor) && self.6.succeeds_for(actor) && self.7.succeeds_for(actor) && self.8.succeeds_for(actor)
    }

    fn perform_all(&self, actor: &Actor) {
        self.0.perform_as(actor);
        self.1.perform_as(actor);
        self.2.perform_as(actor);
        self.3.perform_as(actor);
        self.4.perform_as(actor);
        self.5.perform_as(actor);
        self.6.perform_as(actor);
        self.7.perform_as(actor);
        self.8.perform_as(actor);
    }
}

impl<
    A0: Interaction,
    A1: Interaction,
    A2: Interaction,
    A3: Interaction,
    A4: Interaction,
    A5: Interaction,
    A6: Interaction,
    A7: Interaction,
    A8: Interaction,
    A9: Interaction,
> Interactions for (A0, A1, A2, A3, A4, A5, A6, A7, A8, A9) {
    open spec fn all_succeed_for(&self, actor: &Actor) -> bool {
        self.0.succeeds_for(actor) && self.1.succeeds_for(actor) && self.2.succeeds_for(actor) && self.3.succeeds_for(actor) && self.4.succeeds_for(actor) && self.5.succeeds_for(actor) && self.6.succeeds_for(actor) && self.7.succeeds_for(actor) && self.8.succeeds_for(actor) && self.9.succeeds_for(actor)
    }

    fn perform_all(&self, actor: &Actor) {
        self.0.perform_as(actor);
        self.1.perform_as(actor);
        self.2.perform_as(actor);
        self.3.perform_as(actor);
        self.4.perform_as(actor);
        self.5.perform_as(actor);
        self.6.perform_as(actor);
        self.7.perform_as(actor);
        self.8.perform_as(actor);
        self.9.perform_as(actor);
    }
}

} // verus!
