//! What can go wrong in a round.

use vstd::prelude::*;

verus! {

#[derive(Debug, Clone, Copy, PartialEq, Eq, Structural)]
pub enum GameError {
    /// A hand was opened with a bet above the participant's bankroll.
    InsufficientBankroll,
    /// The input names none of the five actions.
    InvalidActionToken,
    /// The action is not among those the hand may take now.
    IllegalAction,
}

} // verus!
