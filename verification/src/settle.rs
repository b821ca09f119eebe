//! Settlement: how a finished hand comes out against the dealer's, and what
//! it pays.

use crate::hand::{Hand, HandCondition, HandView};
use crate::printer;
use vstd::prelude::*;

verus! {

/// How the hand `player` comes out against the dealer's hand `dealer`. The
/// rules are tried in this order, and the first that fits decides:
/// both under 21, the totals are compared; both at 21, a tie; the dealer
/// above 21, the player wins, even with a hand above 21; the dealer at 21, the
/// dealer wins; the player at 21, a blackjack; the player above 21, the dealer
/// wins.
pub open spec fn outcome_of(dealer: HandView, player: HandView) -> printer::Result {
    match (dealer.condition(), player.condition()) {
        (HandCondition::Under, HandCondition::Under) => if dealer.total() > player.total() {
            printer::Result::DealerWon
        } else if dealer.total() == player.total() {
            printer::Result::Tie
        } else {
            printer::Result::PlayerWon
        },
        (HandCondition::Blackjack, HandCondition::Blackjack) => printer::Result::Tie,
        (HandCondition::Busted, _) => printer::Result::PlayerWon,
        (HandCondition::Blackjack, _) => printer::Result::DealerWon,
        (_, HandCondition::Blackjack) => printer::Result::Blackjack,
        (_, HandCondition::Busted) => printer::Result::DealerWon,
    }
}

/// What a hand with the bet `bet` pays into the bankroll: the bet on a tie,
/// twice the bet on a win, two and a half times the bet, rounded up, on a
/// blackjack, and nothing when the dealer wins.
pub open spec fn payout_of(outcome: printer::Result, bet: int) -> int {
    match outcome {
        printer::Result::Tie => bet,
        printer::Result::PlayerWon => 2 * bet,
        printer::Result::Blackjack => (5 * bet + 1) / 2,
        printer::Result::DealerWon => 0,
    }
}

/// The bankroll `pot` after each of `hands` was settled against `dealer`.
pub open spec fn settled_pot(pot: int, hands: Seq<HandView>, dealer: HandView) -> int
    decreases hands.len(),
{
    if hands.len() == 0 {
        pot
    } else {
        settled_pot(pot, hands.drop_last(), dealer) + payout_of(
            outcome_of(dealer, hands.last()),
            hands.last().bet,
        )
    }
}

/// Where both hands are under 21, an equal total is a tie and pays the bet; a
/// higher total of the player pays twice the bet; a higher total of the dealer
/// pays nothing.
pub proof fn lemma_under_against_under(dealer: HandView, player: HandView)
    requires
        dealer.total() <= 20,
        player.total() <= 20,
    ensures
        dealer.total() == player.total() ==> payout_of(outcome_of(dealer, player), player.bet)
            == player.bet,
        dealer.total() < player.total() ==> payout_of(outcome_of(dealer, player), player.bet) == 2
            * player.bet,
        dealer.total() > player.total() ==> payout_of(outcome_of(dealer, player), player.bet) == 0,
{
}

/// Against a dealer above 21 every hand wins twice its bet, one above 21 too.
pub proof fn lemma_dealer_bust_pays_double(dealer: HandView, player: HandView)
    requires
        dealer.total() > 21,
    ensures
        outcome_of(dealer, player) == printer::Result::PlayerWon,
        payout_of(outcome_of(dealer, player), player.bet) == 2 * player.bet,
{
}

/// A hand at 21 against a dealer under 21 pays two and a half times the bet,
/// rounded up to a whole number.
pub proof fn lemma_blackjack_pays_five_halves(dealer: HandView, player: HandView)
    requires
        dealer.total() <= 20,
        player.total() == 21,
        player.bet >= 0,
    ensures
        outcome_of(dealer, player) == printer::Result::Blackjack,
        5 * player.bet <= 2 * payout_of(outcome_of(dealer, player), player.bet) <= 5 * player.bet
            + 1,
{
}

/// Settlement never takes from a bankroll.
pub proof fn lemma_settlement_never_takes(pot: int, hands: Seq<HandView>, dealer: HandView)
    requires
        forall|i: int| 0 <= i < hands.len() ==> (#[trigger] hands[i]).bet >= 0,
    ensures
        settled_pot(pot, hands, dealer) >= pot,
    decreases hands.len(),
{
    if hands.len() > 0 {
        lemma_settlement_never_takes(pot, hands.drop_last(), dealer);
    }
}

/// Settles the hand `player` against the dealer's hand.
pub fn resolve(dealer: &Hand, player: &Hand) -> (outcome: printer::Result)
    ensures
        outcome == outcome_of(dealer@, player@),
{
    match (dealer.check_hand(), player.check_hand()) {
        (HandCondition::Under, HandCondition::Under) => {
            if dealer > player {
                printer::Result::DealerWon
            } else if dealer == player {
                printer::Result::Tie
            } else {
                printer::Result::PlayerWon
            }
        },
        (HandCondition::Blackjack, HandCondition::Blackjack) => printer::Result::Tie,
        (HandCondition::Busted, _) => printer::Result::PlayerWon,
        (HandCondition::Blackjack, _) => printer::Result::DealerWon,
        (_, HandCondition::Blackjack) => printer::Result::Blackjack,
        (_, HandCondition::Busted) => printer::Result::DealerWon,
    }
}

/// What a hand with the bet `bet` pays into the bankroll.
pub fn payout(outcome: printer::Result, bet: u32) -> (amount: u64)
    ensures
        amount == payout_of(outcome, bet as int),
        amount <= 3 * bet,
{
    let wide: u64 = bet as u64;
    match outcome {
        printer::Result::Tie => wide,
        printer::Result::PlayerWon => 2 * wide,
        printer::Result::Blackjack => (5 * wide + 1) / 2,
        printer::Result::DealerWon => 0,
    }
}

} // verus!
