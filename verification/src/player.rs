//! A participant, dealer or player: a bankroll, one hand or more, and the
//! turn controller that plays an action on a hand.

use crate::action::{action_of_token, menu_of, Action};
use crate::card::Card;
use crate::deck::Deck;
use crate::error::GameError;
use crate::hand::{Hand, HandCondition, HandView};
use crate::printer;
use crate::settle::{outcome_of, payout, resolve, settled_pot};
use vstd::prelude::*;

verus! {

#[derive(Debug, Clone, Copy, PartialEq, Eq, Structural)]
pub enum PlayerKind {
    Dealer,
    Player,
}

#[derive(Debug, Clone, Copy, PartialEq, Eq, Structural)]
pub enum PlayerStatus {
    Playing,
    Won,
    Standing,
    Lost,
}

/// The status that the condition of the hand just played gives a participant
/// who was still playing.
pub open spec fn status_of(condition: HandCondition) -> PlayerStatus {
    match condition {
        HandCondition::Under => PlayerStatus::Playing,
        HandCondition::Blackjack => PlayerStatus::Won,
        HandCondition::Busted => PlayerStatus::Lost,
    }
}

/// The dealer's fixed policy: hit up to a total of 16, stand from 17 on.
pub open spec fn dealer_choice(total: int) -> Action {
    if total <= 16 {
        Action::Hit
    } else {
        Action::Stand
    }
}

/// The dealer's action depends on the total of the first hand alone, whatever
/// the cards: with 16 a hit, with 17 a stand.
pub proof fn lemma_dealer_policy(a: PlayerView, b: PlayerView, choice: Action, other: Action)
    requires
        a.kind == PlayerKind::Dealer,
        b.kind == PlayerKind::Dealer,
    ensures
        a.hands[0].total() == b.hands[0].total() ==> a.turn_action(choice) == b.turn_action(other),
        a.hands[0].total() <= 16 <==> a.turn_action(choice) == Action::Hit,
        a.hands[0].total() >= 17 <==> a.turn_action(choice) == Action::Stand,
{
}

/// A split leaves the participant with one hand more. The hand that was split
/// keeps its first card and gets the next card of the deck; the new hand, the
/// last of all, holds the card that was taken off and the card after the next.
/// Both carry the bet of the hand that was split, and neither bankroll nor
/// status changes.
pub proof fn lemma_split_deals_one_card_to_each(p: PlayerView, i: int, deck: Seq<Card>)
    requires
        0 <= i < p.hands.len(),
        p.can_take(i, Action::Split),
        deck.len() >= 2,
    ensures
        ({
            let after = p.after_action(i, Action::Split, deck);
            &&& after.hands.len() == p.hands.len() + 1
            &&& after.hands[i].cards == seq![p.hands[i].cards[0], deck[deck.len() - 1]]
            &&& after.hands.last().cards == seq![p.hands[i].cards[1], deck[deck.len() - 2]]
            &&& after.hands[i].bet == p.hands[i].bet
            &&& after.hands.last().bet == p.hands[i].bet
            &&& after.pot == p.pot
            &&& after.status == p.status
            &&& forall|j: int| 0 <= j < p.hands.len() && j != i ==> after.hands[j] == p.hands[j]
        }),
{
    let after = p.after_action(i, Action::Split, deck);
    assert(after.hands[i].cards =~= seq![p.hands[i].cards[0], deck[deck.len() - 1]]);
}

/// A hand that may be split or doubled has a bet within the bankroll: so the
/// bet of a hand that a split opens is within the bankroll too.
pub proof fn lemma_stake_within_pot(p: PlayerView, i: int, action: Action)
    requires
        0 <= i < p.hands.len(),
        p.hands[i].bet >= 0,
        action == Action::Split || action == Action::DoubleDown,
        p.can_take(i, action),
    ensures
        p.hands[i].bet <= p.pot,
{
    let bet = p.hands[i].bet;
    let count = p.hands.len() as int;
    assert(bet * count >= bet) by (nonlinear_arith)
        requires
            bet >= 0,
            count >= 1,
    ;
}

#[derive(Debug)]
pub struct Player {
    pub name: String,
    kind: PlayerKind,
    pot: u32,
    status: PlayerStatus,
    pub hands: Vec<Hand>,
}

/// What a participant is: name, kind, bankroll, status, and hands in the
/// order they were opened.
pub ghost struct PlayerView {
    pub name: Seq<char>,
    pub kind: PlayerKind,
    pub pot: int,
    pub status: PlayerStatus,
    pub hands: Seq<HandView>,
}

impl PlayerView {
    pub open spec fn with_status(self, status: PlayerStatus) -> PlayerView {
        PlayerView { status, ..self }
    }

    /// The participant with `card` added to hand `i`.
    pub open spec fn with_card(self, i: int, card: Card) -> PlayerView {
        PlayerView { hands: self.hands.update(i, self.hands[i].with_card(card)), ..self }
    }

    /// The participant with one more hand, not opened by a split.
    pub open spec fn with_hand(self, bet: int, card: Option<Card>) -> PlayerView {
        PlayerView {
            hands: self.hands.push(
                HandView {
                    cards: match card {
                        Some(c) => seq![c],
                        None => Seq::<Card>::empty(),
                    },
                    bet,
                    from_split: false,
                },
            ),
            ..self
        }
    }

    /// Whether hand `i` may take `action` now.
    pub open spec fn can_take(self, i: int, action: Action) -> bool {
        action.spec_can_execute(
            self.hands[i].cards.len() as int,
            self.hands.len() as int,
            self.pot,
            self.hands[i].bet,
            self.hands[i].cards_are_equal(),
        )
    }

    /// The actions open to hand `i`, in declared order.
    pub open spec fn menu(self, i: int) -> Seq<Action> {
        menu_of(
            self.hands[i].cards.len() as int,
            self.hands.len() as int,
            self.pot,
            self.hands[i].bet,
            self.hands[i].cards_are_equal(),
        )
    }

    /// The participant after `action` on hand `i`, where `deck` holds the cards
    /// left to deal, the next one last.
    ///
    /// A hit adds the next card. A stand and a surrender only change the
    /// status. Doubling down adds the next card, doubles the bet and stands.
    /// A split moves the last card of the hand into a new hand with the same
    /// bet, behind all others; then the hand gets the next card and the new
    /// hand the one after.
    pub open spec fn after_action(self, i: int, action: Action, deck: Seq<Card>) -> PlayerView {
        let first = deck[deck.len() - 1];
        let second = deck[deck.len() - 2];
        match action {
            Action::Hit => self.with_card(i, first),
            Action::Stand => self.with_status(PlayerStatus::Standing),
            Action::DoubleDown => PlayerView {
                hands: self.hands.update(i, self.hands[i].with_card(first).doubled()),
                status: PlayerStatus::Standing,
                ..self
            },
            Action::Split => PlayerView {
                hands: self.hands.update(i, self.hands[i].without_last().with_card(first)).push(
                    HandView {
                        cards: seq![self.hands[i].cards.last(), second],
                        bet: self.hands[i].bet,
                        from_split: true,
                    },
                ),
                ..self
            },
            Action::Surrender => self.with_status(PlayerStatus::Lost),
        }
    }

    /// The participant after the status was derived from hand `i`: only one
    /// who is still playing gets a new status.
    pub open spec fn after_check(self, i: int) -> PlayerView {
        if self.status == PlayerStatus::Playing {
            self.with_status(status_of(self.hands[i].condition()))
        } else {
            self
        }
    }

    /// The action of a turn: a dealer's is fixed by the total of the first
    /// hand, a player's is the one chosen.
    pub open spec fn turn_action(self, choice: Action) -> Action {
        match self.kind {
            PlayerKind::Dealer => dealer_choice(self.hands[0].total()),
            PlayerKind::Player => choice,
        }
    }

    /// The hand that a turn on hand `i` acts on: a dealer's first, a player's
    /// hand `i`.
    pub open spec fn turn_hand(self, i: int) -> int {
        match self.kind {
            PlayerKind::Dealer => 0,
            PlayerKind::Player => i,
        }
    }

    /// Whether a turn on hand `i` with the choice `choice` is refused: only a
    /// player's, for an action that the hand may not take.
    pub open spec fn refuses(self, i: int, choice: Action) -> bool {
        self.kind == PlayerKind::Player && !self.can_take(i, choice)
    }

    /// Whether a turn on hand `i` can be played with `cards_left` cards: the
    /// hand exists and, unless the turn is refused, its action can be carried
    /// out.
    pub open spec fn can_play(self, i: int, choice: Action, cards_left: int) -> bool {
        &&& 0 <= i < self.hands.len()
        &&& !self.refuses(i, choice) ==> self.can_carry_out(
            self.turn_hand(i),
            self.turn_action(choice),
            cards_left,
        )
    }

    /// The participant after a turn on hand `i` that was not refused: the
    /// action is carried out, then the status is derived from hand `i`.
    pub open spec fn after_turn(self, i: int, choice: Action, deck: Seq<Card>) -> PlayerView {
        self.after_action(self.turn_hand(i), self.turn_action(choice), deck).after_check(i)
    }

    /// Whether `action` on hand `i` can be carried out: the hand exists and may
    /// take the action, `cards_left` cards cover what the action draws, and a
    /// doubled bet still fits the machine's integer.
    pub open spec fn can_carry_out(self, i: int, action: Action, cards_left: int) -> bool {
        &&& 0 <= i < self.hands.len()
        &&& self.can_take(i, action)
        &&& action.spec_draws() <= cards_left
        &&& action == Action::DoubleDown ==> 2 * self.hands[i].bet <= u32::MAX
    }
}

impl View for Player {
    type V = PlayerView;

    closed spec fn view(&self) -> PlayerView {
        PlayerView {
            name: self.name@,
            kind: self.kind,
            pot: self.pot as int,
            status: self.status,
            hands: Seq::new(self.hands@.len(), |i: int| self.hands@[i]@),
        }
    }
}

impl Player {
    /// A participant who is playing and holds no hand yet.
    pub fn new(name: String, pot: u32, kind: PlayerKind) -> (player: Player)
        ensures
            player@ == (PlayerView {
                name: name@,
                kind,
                pot: pot as int,
                status: PlayerStatus::Playing,
                hands: Seq::<HandView>::empty(),
            }),
    {
        let player = Player { kind, name, pot, status: PlayerStatus::Playing, hands: Vec::new() };
        assert(player@.hands =~= Seq::<HandView>::empty());
        player
    }

    /// Opens a hand with the bet `bet`, holding `card` if there is one. A bet
    /// above the bankroll is refused and changes nothing.
    pub fn new_hand(&mut self, bet: u32, card: Option<Card>) -> (r: Result<(), GameError>)
        ensures
            bet > old(self)@.pot ==> r == Err::<(), GameError>(GameError::InsufficientBankroll)
                && final(self)@ == old(self)@,
            bet <= old(self)@.pot ==> r.is_ok() && final(self)@ == old(self)@.with_hand(
                bet as int,
                card,
            ),
    {
        if bet > self.pot {
            return Err(GameError::InsufficientBankroll);
        }
        self.hands.push(Hand::new(false, bet, card));
        assert(self@.hands =~= old(self)@.with_hand(bet as int, card).hands);
        Ok(())
    }

    /// Adds `card` to the hand at `current_hand`.
    pub fn add_card_to_hand(&mut self, card: Card, current_hand: usize)
        requires
            current_hand < old(self)@.hands.len(),
        ensures
            final(self)@ == old(self)@.with_card(current_hand as int, card),
    {
        self.hands[current_hand].add_card_to_hand(card);
        assert(self@.hands =~= old(self)@.with_card(current_hand as int, card).hands);
    }

    pub fn still_playing(&self) -> (b: bool)
        ensures
            b == (self@.status == PlayerStatus::Playing),
    {
        matches!(self.status, PlayerStatus::Playing)
    }

    pub fn kind(&self) -> (kind: PlayerKind)
        ensures
            kind == self@.kind,
    {
        self.kind
    }

    pub fn pot(&self) -> (pot: u32)
        ensures
            pot == self@.pot,
    {
        self.pot
    }

    pub fn status(&self) -> (status: PlayerStatus)
        ensures
            status == self@.status,
    {
        self.status
    }

    /// The condition of the hand at `current_hand`.
    pub fn check_hand(&self, current_hand: usize) -> (condition: HandCondition)
        requires
            current_hand < self@.hands.len(),
        ensures
            condition == self@.hands[current_hand as int].condition(),
    {
        self.hands[current_hand].check_hand()
    }

    /// Derives the status from the hand at `current_hand`, for a participant
    /// who is still playing: under 21 plays on, 21 has won, above has lost.
    /// Any other status stays as it is.
    pub fn check_condition(&mut self, current_hand: usize) -> (status: PlayerStatus)
        requires
            current_hand < old(self)@.hands.len(),
        ensures
            final(self)@ == old(self)@.after_check(current_hand as int),
            status == final(self)@.status,
    {
        if self.status == PlayerStatus::Playing {
            match self.check_hand(current_hand) {
                HandCondition::Under => {
                    self.status = PlayerStatus::Playing;
                },
                HandCondition::Blackjack => {
                    self.status = PlayerStatus::Won;
                },
                HandCondition::Busted => {
                    self.status = PlayerStatus::Lost;
                },
            }
        }
        assert(self@.hands =~= old(self)@.hands);
        self.status
    }

    /// The menu of the hand at `current_hand`: the actions it may take now.
    pub fn legal_actions(&self, current_hand: usize) -> (menu: Vec<Action>)
        requires
            current_hand < self@.hands.len(),
        ensures
            menu@ == self@.menu(current_hand as int),
    {
        let hand = &self.hands[current_hand];
        Action::legal_actions(
            hand.size(),
            self.hands.len(),
            self.pot,
            hand.current_bet(),
            hand.cards_are_equal(),
        )
    }

    /// Whether the hand at `current_hand` may take `action` now.
    pub fn can_take(&self, current_hand: usize, action: Action) -> (legal: bool)
        requires
            current_hand < self@.hands.len(),
        ensures
            legal == self@.can_take(current_hand as int, action),
    {
        let hand = &self.hands[current_hand];
        action.can_execute(
            hand.size(),
            self.hands.len(),
            self.pot,
            hand.current_bet(),
            hand.cards_are_equal(),
        )
    }

    /// Whether `action` on the hand at `current_hand` can be carried out with
    /// `cards_left` cards to draw from.
    pub fn can_carry_out(&self, current_hand: usize, action: Action, cards_left: usize) -> (ok:
        bool)
        ensures
            ok == self@.can_carry_out(current_hand as int, action, cards_left as int),
    {
        if current_hand >= self.hands.len() {
            return false;
        }
        let fits = match action {
            Action::DoubleDown => self.hands[current_hand].current_bet() <= u32::MAX / 2,
            _ => true,
        };
        self.can_take(current_hand, action) && action.draws() <= cards_left && fits
    }

    /// Carries out `action` on the hand at `current_hand`, drawing from `deck`.
    pub fn execute_action(&mut self, current_hand: usize, action: Action, deck: &mut Deck)
        requires
            old(self)@.can_carry_out(current_hand as int, action, old(deck)@.len() as int),
        ensures
            final(self)@ == old(self)@.after_action(current_hand as int, action, old(deck)@),
            final(deck)@ == old(deck)@.take(old(deck)@.len() - action.spec_draws()),
            final(deck).cards() == old(deck).cards(),
    {
        match action {
            Action::Hit => {
                let card = deck.deal_card();
                self.add_card_to_hand(card, current_hand);
            },
            Action::Stand => {
                self.status = PlayerStatus::Standing;
                assert(self@.hands =~= old(self)@.hands);
            },
            Action::DoubleDown => {
                let card = deck.deal_card();
                self.add_card_to_hand(card, current_hand);
                let ghost mid = self@;
                let ghost mid_hands = self.hands@;
                assert(mid.hands.len() == mid_hands.len());
                assert(mid.hands[current_hand as int] == mid_hands[current_hand as int]@);
                self.hands[current_hand].double_bet();
                self.status = PlayerStatus::Standing;
                proof {
                    let want = old(self)@.after_action(current_hand as int, action, old(deck)@);
                    assert(self.hands@.len() == mid_hands.len());
                    assert forall|j: int| 0 <= j < self@.hands.len() implies self@.hands[j]
                        == want.hands[j] by {
                        assert(mid.hands[j] == mid_hands[j]@);
                        if j != current_hand {
                            assert(self.hands@[j] == mid_hands[j]);
                        }
                    }
                    assert(self@.hands =~= want.hands);
                }
            },
            Action::Split => {
                let (card, bet) = self.hands[current_hand].split();
                self.hands.push(Hand::new(true, bet, card));
                let first = deck.deal_card();
                self.add_card_to_hand(first, current_hand);
                let second = deck.deal_card();
                assert(self@.hands.len() == self.hands@.len());
                let newest = self.hands.len() - 1;
                self.add_card_to_hand(second, newest);
                proof {
                    let want = old(self)@.after_action(current_hand as int, action, old(deck)@);
                    assert(self@.hands[newest as int].cards =~= want.hands[newest as int].cards);
                    assert(self@.hands =~= want.hands);
                }
            },
            Action::Surrender => {
                self.status = PlayerStatus::Lost;
                assert(self@.hands =~= old(self)@.hands);
            },
        }
        assert(deck@ =~= old(deck)@.take(old(deck)@.len() - action.spec_draws()));
    }

    /// The dealer's turn on the first hand: a hit up to a total of 16, a stand
    /// from 17 on, whatever the cards are.
    pub fn dealer_play(&mut self, deck: &mut Deck) -> (action: Action)
        requires
            old(self)@.hands.len() > 0,
            old(self)@.hands[0].total() <= 16 ==> old(deck)@.len() > 0,
        ensures
            action == dealer_choice(old(self)@.hands[0].total()),
            final(self)@ == old(self)@.after_action(0, action, old(deck)@),
            final(deck)@ == old(deck)@.take(old(deck)@.len() - action.spec_draws()),
            final(deck).cards() == old(deck).cards(),
    {
        let action = if self.hands[0].exact_total() <= 16 {
            Action::Hit
        } else {
            Action::Stand
        };
        self.execute_action(0, action, deck);
        action
    }

    /// A player's turn on the hand at `current_hand`, given the action that was
    /// chosen for it. An action that the hand may not take now is refused and
    /// changes nothing.
    pub fn player_play(&mut self, current_hand: usize, action: Action, deck: &mut Deck) -> (r:
        Result<(), GameError>)
        requires
            current_hand < old(self)@.hands.len(),
            old(self)@.can_take(current_hand as int, action) ==> old(self)@.can_carry_out(
                current_hand as int,
                action,
                old(deck)@.len() as int,
            ),
        ensures
            !old(self)@.can_take(current_hand as int, action) ==> r == Err::<(), GameError>(
                GameError::IllegalAction,
            ) && final(self)@ == old(self)@ && final(deck)@ == old(deck)@,
            old(self)@.can_take(current_hand as int, action) ==> r.is_ok() && final(self)@ == old(
                self,
            )@.after_action(current_hand as int, action, old(deck)@) && final(deck)@ == old(
                deck,
            )@.take(old(deck)@.len() - action.spec_draws()),
            final(deck).cards() == old(deck).cards(),
    {
        if !self.can_take(current_hand, action) {
            return Err(GameError::IllegalAction);
        }
        self.execute_action(current_hand, action, deck);
        Ok(())
    }

    /// One turn on the hand at `current_hand`. A dealer follows the fixed
    /// policy on the first hand and `choice` is not read; a player plays
    /// `choice`, which is refused if the hand may not take it. Then the status
    /// is derived from the hand at `current_hand`.
    pub fn play(&mut self, current_hand: usize, choice: Action, deck: &mut Deck) -> (r: Result<
        PlayerStatus,
        GameError,
    >)
        requires
            old(self)@.can_play(current_hand as int, choice, old(deck)@.len() as int),
        ensures
            old(self)@.refuses(current_hand as int, choice) ==> r == Err::<
                PlayerStatus,
                GameError,
            >(GameError::IllegalAction) && final(self)@ == old(self)@ && final(deck)@ == old(
                deck,
            )@,
            !old(self)@.refuses(current_hand as int, choice) ==> r == Ok::<
                PlayerStatus,
                GameError,
            >(final(self)@.status) && final(self)@ == old(self)@.after_turn(
                current_hand as int,
                choice,
                old(deck)@,
            ) && final(deck)@ == old(deck)@.take(
                old(deck)@.len() - old(self)@.turn_action(choice).spec_draws(),
            ),
            final(deck).cards() == old(deck).cards(),
    {
        match self.kind {
            PlayerKind::Dealer => {
                self.dealer_play(deck);
            },
            PlayerKind::Player => {
                match self.player_play(current_hand, choice, deck) {
                    Ok(_) => {},
                    Err(e) => {
                        return Err(e);
                    },
                }
            },
        }
        assert(self@.hands.len() >= old(self)@.hands.len());
        let status = self.check_condition(current_hand);
        Ok(status)
    }

    /// Settles every hand against the dealer's hand and pays the bankroll. The
    /// outcomes come back hand by hand.
    pub fn settle(&mut self, dealer: &Hand) -> (outcomes: Vec<printer::Result>)
        requires
            settled_pot(old(self)@.pot, old(self)@.hands, dealer@) <= u32::MAX,
        ensures
            final(self)@ == (PlayerView {
                pot: settled_pot(old(self)@.pot, old(self)@.hands, dealer@),
                ..old(self)@
            }),
            outcomes@ == Seq::new(
                old(self)@.hands.len(),
                |i: int| outcome_of(dealer@, old(self)@.hands[i]),
            ),
    {
        let (total, outcomes) = self.settlement(dealer);
        self.pot = total as u32;
        assert(self@.hands =~= old(self)@.hands);
        outcomes
    }

    /// What the bankroll comes to once every hand is settled against the
    /// dealer's hand, and the outcomes hand by hand. Nothing is paid yet.
    pub fn settlement(&self, dealer: &Hand) -> (out: (u128, Vec<printer::Result>))
        ensures
            out.0 == settled_pot(self@.pot, self@.hands, dealer@),
            out.1@ == Seq::new(self@.hands.len(), |i: int| outcome_of(dealer@, self@.hands[i])),
    {
        let mut total: u128 = self.pot as u128;
        let mut outcomes: Vec<printer::Result> = Vec::new();
        let mut i: usize = 0;
        while i < self.hands.len()
            invariant
                i <= self.hands@.len(),
                self@.hands.len() == self.hands@.len(),
                total == settled_pot(self@.pot, self@.hands.take(i as int), dealer@),
                total <= 0x1_0000_0000 + i * 0x3_0000_0000,
                outcomes@.len() == i,
                forall|j: int|
                    0 <= j < i ==> outcomes@[j] == outcome_of(dealer@, #[trigger] self@.hands[j]),
            decreases self.hands.len() - i,
        {
            let hand = &self.hands[i];
            let outcome = resolve(dealer, hand);
            let amount = payout(outcome, hand.current_bet());
            proof {
                assert(self@.hands[i as int] == hand@);
                assert(self@.hands.take(i + 1).drop_last() =~= self@.hands.take(i as int));
            }
            total = total + amount as u128;
            outcomes.push(outcome);
            i = i + 1;
        }
        proof {
            assert(self@.hands.take(i as int) =~= self@.hands);
            assert(outcomes@ =~= Seq::new(
                self@.hands.len(),
                |i: int| outcome_of(dealer@, self@.hands[i]),
            ));
        }
        (total, outcomes)
    }

    /// The hand at `index`.
    pub fn hand(&self, index: usize) -> (hand: &Hand)
        requires
            index < self@.hands.len(),
        ensures
            hand@ == self@.hands[index as int],
    {
        &self.hands[index]
    }

    /// A bankroll is an unsigned machine integer.
    pub proof fn lemma_pot_bounds(&self)
        ensures
            0 <= self@.pot <= u32::MAX,
    {
    }

    /// Whether a turn on the hand at `current_hand` can be played with
    /// `cards_left` cards to draw from.
    pub fn can_play(&self, current_hand: usize, choice: Action, cards_left: usize) -> (ok: bool)
        ensures
            ok == self@.can_play(current_hand as int, choice, cards_left as int),
    {
        if current_hand >= self.hands.len() {
            return false;
        }
        match self.kind {
            PlayerKind::Dealer => {
                let action = if self.hands[0].exact_total() <= 16 {
                    Action::Hit
                } else {
                    Action::Stand
                };
                self.can_carry_out(0, action, cards_left)
            },
            PlayerKind::Player => {
                !self.can_take(current_hand, choice) || self.can_carry_out(
                    current_hand,
                    choice,
                    cards_left,
                )
            },
        }
    }

    /// How many hands the participant holds.
    pub fn hands_count(&self) -> (n: usize)
        ensures
            n == self@.hands.len(),
    {
        self.hands.len()
    }
}

} // verus!
