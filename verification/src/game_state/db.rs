//! Identifiers for non-spatial data.
use vstd::prelude::*;

verus! {

/// An actor's slot in a table of actors.
#[derive(PartialEq, Eq, Hash, Debug, Clone, Copy, Structural)]
pub struct ActorId {
    pub idx: usize,
}

} // verus!
