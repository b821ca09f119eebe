//! A turn-based Blackjack round engine: card values, hands, the legality of
//! actions, the turn controller of dealer and players, and settlement.

pub mod action;
pub mod card;
pub mod deck;
pub mod error;
pub mod game;
pub mod hand;
pub mod player;
pub mod printer;
pub mod settle;
