//! What the bot tells the platform when it answers an interaction.

use vstd::prelude::*;

verus! {

/// How an interaction is acknowledged before its answer is ready.
#[derive(Clone, Copy, Debug, PartialEq, Eq, Structural)]
pub struct DeferInteractionPayload {
    /// Whether only the member who asked sees the answer.
    pub ephemeral: bool,
}

impl Default for DeferInteractionPayload {
    /// An acknowledgement whose answer everyone sees.
    fn default() -> (payload: DeferInteractionPayload)
        ensures
            !payload.ephemeral,
    {
        DeferInteractionPayload { ephemeral: false }
    }
}

} // verus!
