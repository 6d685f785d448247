//! The outcome of a game operation that did not succeed.
use vstd::prelude::*;

verus! {

#[derive(Clone, Copy, Debug, PartialEq)]
pub enum Status {
    /// An actor failed to perform an action; the game goes on.
    ActionFail(&'static str),
    /// A coordinate or key lies outside a container.
    OutOfBounds,
    /// A state update failed to apply.
    StateUpdateError,
    /// An unexpected error.
    Error(&'static str),
}

pub type Result<T> = core::result::Result<T, Status>;

/// What the player can do on a status message.
#[derive(Clone, Copy, Debug, PartialEq, Eq, Structural)]
pub enum StatusMenuOptions {
    Exit,
}

} // verus!
