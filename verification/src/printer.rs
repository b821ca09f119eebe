//! What the engine announces, and the surface that it announces it to.

use crate::action::Action;
use crate::player::Player;
use vstd::prelude::*;

verus! {

/// How one hand of a player came out against the dealer's.
#[derive(Debug, Clone, Copy, PartialEq, Eq, Structural)]
pub enum Result {
    Tie,
    DealerWon,
    PlayerWon,
    Blackjack,
}

#[derive(Debug, Clone, Copy, PartialEq, Eq, Structural)]
pub enum Generic {
    VerifyResults,
    Shuffling,
    Starting,
    Exiting,
}

#[derive(Debug, Clone, Copy, PartialEq, Eq, Structural)]
pub enum Message {
    PlayerStatus,
    Generic(Generic),
    Action(Action),
    Result(Result),
}

/// A surface that shows the engine's messages. The engine says what to
/// announce and about whom; how it looks is the surface's business.
pub trait Printer {
    fn print_message(&self, message: Message, player: Option<&Player>);

    fn set_round_settings(&mut self, round: u16);
}

} // verus!
