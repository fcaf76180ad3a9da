//! The outcome of attempting an interaction.
use vstd::prelude::*;

verus! {

/// Whether an attempted interaction completed, or failed with a message.
pub enum Outcome {
    Success,
    Failure(String),
}

} // verus!
