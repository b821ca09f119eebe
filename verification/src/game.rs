//! The round: setting up the participants, the opening deal, whose turn it is,
//! and the settlement of every hand against the dealer's.

use crate::action::Action;
use crate::card::Card;
use crate::deck::Deck;
use crate::error::GameError;
use crate::hand::HandView;
use crate::player::{dealer_choice, Player, PlayerKind, PlayerStatus, PlayerView};
use crate::printer;
use crate::printer::{Generic, Message, Printer};
use crate::settle::{outcome_of, settled_pot};
use vstd::prelude::*;

verus! {

/// The bankroll that every player starts a round with.
pub const OPENING_POT: u32 = 100;

/// The bet that every player opens a round with.
pub const OPENING_BET: u32 = 20;

/// The bet that is tried where the opening bet is refused.
pub const FALLBACK_BET: u32 = 10;

/// The number of turns after which a round is settled in any case.
pub const TURN_CAP: u8 = 12;

/// The decimal digits of `n`.
pub open spec fn decimal(n: nat) -> Seq<char>
    decreases n,
{
    if n < 10 {
        seq![(('0' as u8) + n) as char]
    } else {
        decimal(n / 10).push((('0' as u8) + n % 10) as char)
    }
}

/// The name of the player with the number `number`.
pub open spec fn player_label(number: u8) -> Seq<char> {
    "Player "@ + decimal(number as nat)
}

/// std's `format!` on an unsigned byte: its decimal digits, the highest first,
/// with no sign and no leading zero.
#[verifier::external_body]
fn decimal_text(number: u8) -> (text: String)
    ensures
        text@ == decimal(number as nat),
{
    format!("{}", number)
}

/// The name of the player with the number `number`.
fn make_player_label(number: u8) -> (name: String)
    ensures
        name@ == player_label(number),
{
    String::from_str("Player ").concat(decimal_text(number).as_str())
}

#[derive(Debug)]
pub struct Game<T: Printer> {
    number_of_rounds: u16,
    played_rounds: u16,
    players: Vec<Player>,
    dealer: Player,
    deck: Deck,
    printer: T,
    turn: u8,
    acting: bool,
    seat: usize,
    slot: usize,
}

/// What a game is. `deck` holds the cards left to deal, the next one last.
/// `turn` counts the turns begun in this round; while `acting`, the turn is
/// under way and (`seat`, `slot`) is the next player and hand to look at.
pub ghost struct GameView {
    pub number_of_rounds: int,
    pub played_rounds: int,
    pub players: Seq<PlayerView>,
    pub dealer: PlayerView,
    pub deck: Seq<Card>,
    pub turn: int,
    pub acting: bool,
    pub seat: int,
    pub slot: int,
}

/// What is to happen next in the acting of a round.
#[derive(Debug, Clone, Copy, PartialEq, Eq, Structural)]
pub enum Step {
    /// A new turn has begun, and the dealer's hand was announced.
    TurnStarted,
    /// The hand `hand` of the player `player` is to act next.
    Ask { player: usize, hand: usize },
    /// Every player has had the turn, and the dealer is to play.
    Dealer,
    /// Every player has had the turn, and the dealer does not play any more.
    TurnEnded,
    /// The acting is over, and the round is to be settled.
    Settle,
}

/// A player as a round sets one up: playing, with the opening bankroll and
/// one empty hand on the opening bet.
pub open spec fn fresh_player(number: u8) -> PlayerView {
    PlayerView {
        name: player_label(number),
        kind: PlayerKind::Player,
        pot: OPENING_POT as int,
        status: PlayerStatus::Playing,
        hands: seq![
            HandView { cards: Seq::<Card>::empty(), bet: OPENING_BET as int, from_split: false },
        ],
    }
}

impl GameView {
    /// Whether neither the dealer nor any player is still playing.
    pub open spec fn all_done(self) -> bool {
        &&& self.dealer.status != PlayerStatus::Playing
        &&& forall|i: int|
            0 <= i < self.players.len() ==> (#[trigger] self.players[i]).status
                != PlayerStatus::Playing
    }

    /// Whether every participant holds a hand.
    pub open spec fn all_hold_a_hand(self) -> bool {
        &&& self.dealer.hands.len() > 0
        &&& forall|i: int| 0 <= i < self.players.len() ==> (#[trigger] self.players[i]).hands.len() > 0
    }

    /// The game after one pass of the opening deal: the dealer gets the next
    /// card, then each player in turn the one after, each into the first hand.
    pub open spec fn after_pass(self) -> GameView {
        let last = self.deck.len() - 1;
        GameView {
            dealer: self.dealer.with_card(0, self.deck[last]),
            players: Seq::new(
                self.players.len(),
                |i: int| self.players[i].with_card(0, self.deck[last - 1 - i]),
            ),
            deck: self.deck.take(last - self.players.len()),
            ..self
        }
    }

    /// The hand of the player at `seat` that the cursor stands at: the cursor's
    /// own at its seat, the first hand at every seat behind.
    pub open spec fn slot_at(self, seat: int) -> int {
        if seat == self.seat {
            self.slot
        } else {
            0
        }
    }

    /// Whether the player at `seat` has a hand to act in the turn under way: one
    /// who was still playing when the turn came to the first hand, as long as
    /// hands are left, those that a split has just opened among them.
    pub open spec fn due(self, seat: int) -> bool {
        &&& self.slot_at(seat) > 0 || self.players[seat].status == PlayerStatus::Playing
        &&& self.slot_at(seat) < self.players[seat].hands.len()
    }

    /// Whether no player from the cursor on has a hand to act.
    pub open spec fn none_due(self) -> bool {
        forall|s: int| self.seat <= s < self.players.len() ==> !self.due(s)
    }

    /// Whether the acting is over: no turn is under way, and either the turn cap
    /// is reached or a turn was played and nobody is still playing.
    pub open spec fn round_over(self) -> bool {
        !self.acting && (self.turn >= TURN_CAP || (self.turn > 0 && self.all_done()))
    }

    /// The game after a turn of the dealer: one who is still playing follows
    /// the fixed policy on the first hand and gets the status from it.
    pub open spec fn after_dealer(self) -> GameView {
        if self.dealer.status == PlayerStatus::Playing {
            let action = dealer_choice(self.dealer.hands[0].total());
            GameView {
                dealer: self.dealer.after_action(0, action, self.deck).after_check(0),
                deck: self.deck.take(self.deck.len() - action.spec_draws()),
                ..self
            }
        } else {
            self
        }
    }

    /// Whether the dealer's turn can be played: a dealer who is still playing
    /// holds a hand and, to hit, finds a card.
    pub open spec fn dealer_can_play(self) -> bool {
        self.dealer.status == PlayerStatus::Playing ==> self.dealer.hands.len() > 0 && (
        self.dealer.hands[0].total() <= 16 ==> self.deck.len() > 0)
    }

    /// Whether every player's bankroll, once all hands are settled against the
    /// dealer's first hand, still fits the machine's integer.
    pub open spec fn settlement_fits(self) -> bool {
        forall|i: int|
            0 <= i < self.players.len() ==> settled_pot(
                (#[trigger] self.players[i]).pot,
                self.players[i].hands,
                self.dealer.hands[0],
            ) <= u32::MAX
    }

    /// How the hands of the player `i` come out against the dealer's first
    /// hand, hand by hand.
    pub open spec fn outcomes_of(self, i: int) -> Seq<printer::Result> {
        Seq::new(
            self.players[i].hands.len(),
            |j: int| outcome_of(self.dealer.hands[0], self.players[i].hands[j]),
        )
    }

    /// The game after settlement: every player's bankroll has taken up what
    /// each hand pays against the dealer's first hand.
    pub open spec fn settled(self) -> GameView {
        GameView {
            players: Seq::new(
                self.players.len(),
                |i: int|
                    PlayerView {
                        pot: settled_pot(
                            self.players[i].pot,
                            self.players[i].hands,
                            self.dealer.hands[0],
                        ),
                        ..self.players[i]
                    },
            ),
            ..self
        }
    }
}

impl<T: Printer> View for Game<T> {
    type V = GameView;

    closed spec fn view(&self) -> GameView {
        GameView {
            number_of_rounds: self.number_of_rounds as int,
            played_rounds: self.played_rounds as int,
            players: Seq::new(self.players@.len(), |i: int| self.players@[i]@),
            dealer: self.dealer@,
            deck: self.deck@,
            turn: self.turn as int,
            acting: self.acting,
            seat: self.seat as int,
            slot: self.slot as int,
        }
    }
}

impl<T: Printer> Game<T> {
    /// All the cards of the deck, in the order of the last shuffle.
    pub closed spec fn deck_cards(&self) -> Seq<Card> {
        self.deck.cards()
    }

    /// A game of one round, with a dealer who owns nothing and holds no hand,
    /// no players yet, and a deck in factory order that is still to be
    /// shuffled. The number of rounds asked for is not read.
    pub fn new(_number_of_rounds: u16, printer: T) -> (game: Game<T>)
        ensures
            game@ == (GameView {
                number_of_rounds: 1,
                played_rounds: 0,
                players: Seq::<PlayerView>::empty(),
                dealer: PlayerView {
                    name: "Dealer"@,
                    kind: PlayerKind::Dealer,
                    pot: 0,
                    status: PlayerStatus::Playing,
                    hands: Seq::<HandView>::empty(),
                },
                deck: Seq::<Card>::empty(),
                turn: 0,
                acting: false,
                seat: 0,
                slot: 0,
            }),
            game.deck_cards() == crate::deck::full_deck(),
    {
        let game = Game {
            printer,
            number_of_rounds: 1,
            played_rounds: 0,
            players: Vec::new(),
            deck: Deck::new(),
            dealer: Player::new(String::from_str("Dealer"), 0, PlayerKind::Dealer),
            turn: 0,
            acting: false,
            seat: 0,
            slot: 0,
        };
        assert(game@.players =~= Seq::<PlayerView>::empty());
        game
    }

    /// A game of one round like `new`, on a deck of the caller's making.
    pub fn with_deck(printer: T, deck: Deck) -> (game: Game<T>)
        ensures
            game@ == (GameView {
                number_of_rounds: 1,
                played_rounds: 0,
                players: Seq::<PlayerView>::empty(),
                dealer: PlayerView {
                    name: "Dealer"@,
                    kind: PlayerKind::Dealer,
                    pot: 0,
                    status: PlayerStatus::Playing,
                    hands: Seq::<HandView>::empty(),
                },
                deck: deck@,
                turn: 0,
                acting: false,
                seat: 0,
                slot: 0,
            }),
            game.deck_cards() == deck.cards(),
    {
        let game = Game {
            printer,
            number_of_rounds: 1,
            played_rounds: 0,
            players: Vec::new(),
            deck,
            dealer: Player::new(String::from_str("Dealer"), 0, PlayerKind::Dealer),
            turn: 0,
            acting: false,
            seat: 0,
            slot: 0,
        };
        assert(game@.players =~= Seq::<PlayerView>::empty());
        game
    }

    /// Sets a round up: `players_count` fresh players take the place of the
    /// players before, and the dealer opens one more empty hand with no bet.
    pub fn setup_round(&mut self, players_count: u8)
        requires
            old(self)@.played_rounds < u16::MAX,
        ensures
            final(self)@ == (GameView {
                players: Seq::new(players_count as nat, |i: int| fresh_player((i + 1) as u8)),
                dealer: old(self)@.dealer.with_hand(0, None),
                turn: 0,
                acting: false,
                seat: 0,
                slot: 0,
                ..old(self)@
            }),
            final(self).deck_cards() == old(self).deck_cards(),
    {
        self.printer.set_round_settings(self.played_rounds + 1);
        self.players = Vec::new();
        self.turn = 0;
        self.acting = false;
        self.seat = 0;
        self.slot = 0;
        let mut i: u8 = 0;
        while i < players_count
            invariant
                i <= players_count,
                self.players@.len() == i,
                forall|j: int| 0 <= j < i ==> (#[trigger] self.players@[j])@ == fresh_player((j + 1) as u8),
                self.dealer == old(self).dealer,
                self.deck == old(self).deck,
                self.number_of_rounds == old(self).number_of_rounds,
                self.played_rounds == old(self).played_rounds,
                self.turn == 0,
                !self.acting,
                self.seat == 0,
                self.slot == 0,
            decreases players_count - i,
        {
            let mut player = Player::new(make_player_label(i + 1), OPENING_POT, PlayerKind::Player);
            let mut created = player.new_hand(OPENING_BET, None);
            assert(player@.hands =~= fresh_player((i + 1) as u8).hands);
            // A refused bet is tried again with the fallback bet. The opening
            // bet is within the opening bankroll, so the first try holds.
            while created.is_err()
                invariant
                    created.is_ok(),
                    player@ == fresh_player((i + 1) as u8),
                decreases 0int,
            {
                created = player.new_hand(FALLBACK_BET, None);
            }
            self.players.push(player);
            i = i + 1;
        }
        proof {
            self.dealer.lemma_pot_bounds();
        }
        let _ = self.dealer.new_hand(0, None);
        assert(self@.players =~= Seq::new(
            players_count as nat,
            |i: int| fresh_player((i + 1) as u8),
        ));
    }

    /// Whether neither the dealer nor any player is still playing.
    pub fn should_break_loop(&self) -> (done: bool)
        ensures
            done == self@.all_done(),
    {
        let mut i: usize = 0;
        while i < self.players.len()
            invariant
                i <= self.players@.len(),
                self@.players.len() == self.players@.len(),
                forall|j: int|
                    0 <= j < i ==> (#[trigger] self@.players[j]).status != PlayerStatus::Playing,
            decreases self.players.len() - i,
        {
            if self.players[i].still_playing() {
                assert(self@.players[i as int].status == PlayerStatus::Playing);
                return false;
            }
            i = i + 1;
        }
        !self.dealer.still_playing()
    }

    /// One pass of the opening deal: a card to the dealer, then one to each
    /// player in the order they were set up, each into the first hand.
    pub fn deal_pass(&mut self)
        requires
            old(self)@.all_hold_a_hand(),
            old(self)@.deck.len() > old(self)@.players.len(),
        ensures
            final(self)@ == old(self)@.after_pass(),
            final(self).deck_cards() == old(self).deck_cards(),
    {
        let ghost before = self@;
        let ghost last = before.deck.len() - 1;
        let card = self.deck.deal_card();
        self.dealer.add_card_to_hand(card, 0);
        let mut i: usize = 0;
        assert(self.deck@ =~= before.deck.take(last));
        while i < self.players.len()
            invariant
                i <= self.players@.len(),
                self.players@.len() == before.players.len(),
                before == old(self)@,
                last == before.deck.len() - 1,
                before.deck.len() > before.players.len(),
                before.all_hold_a_hand(),
                self.deck@ == before.deck.take(last - i),
                self.deck.cards() == old(self).deck.cards(),
                self.dealer@ == before.dealer.with_card(0, before.deck[last]),
                forall|j: int|
                    0 <= j < i ==> (#[trigger] self.players@[j])@ == before.players[j].with_card(
                        0,
                        before.deck[last - 1 - j],
                    ),
                forall|j: int|
                    i <= j < self.players@.len() ==> (#[trigger] self.players@[j])@
                        == before.players[j],
                self.number_of_rounds == old(self).number_of_rounds,
                self.played_rounds == old(self).played_rounds,
                self.turn == old(self).turn,
                self.acting == old(self).acting,
                self.seat == old(self).seat,
                self.slot == old(self).slot,
            decreases self.players.len() - i,
        {
            assert(self.players@[i as int]@ == before.players[i as int]);
            let card = self.deck.deal_card();
            self.players[i].add_card_to_hand(card, 0);
            assert(self.deck@ =~= before.deck.take(last - i - 1));
            i = i + 1;
        }
        assert(self@.players =~= before.after_pass().players);
    }

    /// Opens the round: announces it, shuffles the deck, and deals two passes,
    /// each a card to the dealer and then to each player in turn.
    pub fn open_round(&mut self)
        requires
            old(self)@.all_hold_a_hand(),
            2 * (old(self)@.players.len() + 1) <= old(self).deck_cards().len(),
        ensures
            final(self).deck_cards().to_multiset() == old(self).deck_cards().to_multiset(),
            final(self).deck_cards().len() == old(self).deck_cards().len(),
            final(self)@ == (GameView {
                deck: final(self).deck_cards(),
                ..old(self)@
            }).after_pass().after_pass(),
    {
        self.printer.print_message(Message::Generic(Generic::Starting), None);
        self.printer.print_message(Message::Generic(Generic::Shuffling), None);
        self.deck.shuffle();
        self.deal_pass();
        self.deal_pass();
    }

    /// Whether the round can be opened: every participant holds a hand, and the
    /// deck has two cards for each.
    pub fn can_open_round(&self) -> (ok: bool)
        ensures
            ok == (self@.all_hold_a_hand() && 2 * (self@.players.len() + 1)
                <= self.deck_cards().len()),
    {
        if self.dealer.hands_count() == 0 {
            return false;
        }
        let mut i: usize = 0;
        while i < self.players.len()
            invariant
                i <= self.players@.len(),
                self@.players.len() == self.players@.len(),
                forall|j: int| 0 <= j < i ==> (#[trigger] self@.players[j]).hands.len() > 0,
            decreases self.players.len() - i,
        {
            if self.players[i].hands_count() == 0 {
                assert(self@.players[i as int].hands.len() == 0);
                return false;
            }
            i = i + 1;
        }
        let size = self.deck.size();
        size / 2 >= 1 && self.players.len() <= size / 2 - 1
    }

    /// Says what is to happen next in the acting, and moves the cursor on.
    ///
    /// Between turns the round is over at the turn cap, or once a turn was
    /// played and nobody is still playing; else a new turn begins. Within a
    /// turn the players come in the order they were set up, each who is still
    /// playing with all hands in order; after them the dealer, if still
    /// playing.
    pub fn next_step(&mut self) -> (step: Step)
        ensures
            match step {
                Step::Settle => old(self)@.round_over() && final(self)@ == old(self)@,
                Step::TurnStarted => !old(self)@.acting && !old(self)@.round_over() && final(self)@
                    == (GameView { turn: old(self)@.turn + 1, acting: true, seat: 0, slot: 0, ..old(
                    self,
                )@ }),
                Step::Ask { player, hand } => {
                    &&& old(self)@.acting
                    &&& old(self)@.seat <= player < old(self)@.players.len()
                    &&& old(self)@.due(player as int)
                    &&& forall|s: int| old(self)@.seat <= s < player ==> !old(self)@.due(s)
                    &&& hand == old(self)@.slot_at(player as int)
                    &&& final(self)@ == (GameView {
                        seat: player as int,
                        slot: hand + 1,
                        ..old(self)@
                    })
                },
                Step::Dealer => old(self)@.acting && old(self)@.none_due() && old(self)@.dealer.status
                    == PlayerStatus::Playing && final(self)@ == (GameView {
                    acting: false,
                    seat: 0,
                    slot: 0,
                    ..old(self)@
                }),
                Step::TurnEnded => old(self)@.acting && old(self)@.none_due() && old(
                    self,
                )@.dealer.status != PlayerStatus::Playing && final(self)@ == (GameView {
                    acting: false,
                    seat: 0,
                    slot: 0,
                    ..old(self)@
                }),
            },
            final(self).deck_cards() == old(self).deck_cards(),
    {
        if !self.acting {
            if self.turn >= TURN_CAP || (self.turn > 0 && self.should_break_loop()) {
                return Step::Settle;
            }
            self.turn = self.turn + 1;
            self.acting = true;
            self.seat = 0;
            self.slot = 0;
            self.printer.print_message(Message::PlayerStatus, Some(&self.dealer));
            return Step::TurnStarted;
        }
        while self.seat < self.players.len()
            invariant
                self.acting,
                old(self)@.acting,
                self.players == old(self).players,
                self.dealer == old(self).dealer,
                self.deck == old(self).deck,
                self.number_of_rounds == old(self).number_of_rounds,
                self.played_rounds == old(self).played_rounds,
                self.turn == old(self).turn,
                self@.players.len() == self.players@.len(),
                old(self).seat <= self.seat,
                self.slot as int == old(self)@.slot_at(self.seat as int),
                forall|s: int| old(self)@.seat <= s < self.seat ==> !old(self)@.due(s),
            decreases self.players.len() - self.seat,
        {
            let player = &self.players[self.seat];
            assert(player@ == old(self)@.players[self.seat as int]);
            if (self.slot > 0 || player.still_playing()) && self.slot < player.hands_count() {
                let seat = self.seat;
                let hand = self.slot;
                self.slot = self.slot + 1;
                return Step::Ask { player: seat, hand };
            }
            self.seat = self.seat + 1;
            self.slot = 0;
        }
        self.acting = false;
        self.seat = 0;
        self.slot = 0;
        if self.dealer.still_playing() {
            Step::Dealer
        } else {
            Step::TurnEnded
        }
    }

    /// The menu of the hand `current_hand` of the player `player`.
    pub fn legal_actions(&self, player: usize, current_hand: usize) -> (menu: Vec<Action>)
        requires
            player < self@.players.len(),
            current_hand < self@.players[player as int].hands.len(),
        ensures
            menu@ == self@.players[player as int].menu(current_hand as int),
    {
        assert(self@.players[player as int] == self.players@[player as int]@);
        self.players[player].legal_actions(current_hand)
    }

    /// Whether `play_hand` can be called for this hand and choice.
    pub fn can_play_hand(&self, player: usize, current_hand: usize, choice: Action) -> (ok: bool)
        ensures
            ok == (player < self@.players.len() && self@.players[player as int].can_play(
                current_hand as int,
                choice,
                self@.deck.len() as int,
            )),
    {
        if player >= self.players.len() {
            return false;
        }
        assert(self@.players[player as int] == self.players@[player as int]@);
        self.players[player].can_play(current_hand, choice, self.deck.remaining())
    }

    /// The turn of the hand `current_hand` of the player `player`, with the
    /// action chosen for it.
    pub fn play_hand(&mut self, player: usize, current_hand: usize, choice: Action) -> (r: Result<
        PlayerStatus,
        GameError,
    >)
        requires
            player < old(self)@.players.len(),
            old(self)@.players[player as int].can_play(
                current_hand as int,
                choice,
                old(self)@.deck.len() as int,
            ),
        ensures
            old(self)@.players[player as int].refuses(current_hand as int, choice) ==> r == Err::<
                PlayerStatus,
                GameError,
            >(GameError::IllegalAction) && final(self)@ == old(self)@,
            !old(self)@.players[player as int].refuses(current_hand as int, choice) ==> r == Ok::<
                PlayerStatus,
                GameError,
            >(final(self)@.players[player as int].status) && final(self)@ == (GameView {
                players: old(self)@.players.update(
                    player as int,
                    old(self)@.players[player as int].after_turn(
                        current_hand as int,
                        choice,
                        old(self)@.deck,
                    ),
                ),
                deck: old(self)@.deck.take(
                    old(self)@.deck.len() - old(self)@.players[player as int].turn_action(
                        choice,
                    ).spec_draws(),
                ),
                ..old(self)@
            }),
            final(self).deck_cards() == old(self).deck_cards(),
    {
        assert(self@.players[player as int] == self.players@[player as int]@);
        let ghost before = self.players@;
        assert forall|j: int| 0 <= j < before.len() implies old(self)@.players[j] == (
        #[trigger] before[j])@ by {}
        let r = self.players[player].play(current_hand, choice, &mut self.deck);
        proof {
            if old(self)@.players[player as int].refuses(current_hand as int, choice) {
                assert(self@.players =~= old(self)@.players);
            } else {
                assert(self@.players =~= old(self)@.players.update(
                    player as int,
                    old(self)@.players[player as int].after_turn(
                        current_hand as int,
                        choice,
                        old(self)@.deck,
                    ),
                ));
            }
        }
        r
    }

    /// Whether the dealer's turn can be played.
    pub fn dealer_can_play(&self) -> (ok: bool)
        ensures
            ok == self@.dealer_can_play(),
    {
        if !self.dealer.still_playing() {
            return true;
        }
        if self.dealer.hands_count() == 0 {
            return false;
        }
        self.dealer.hand(0).exact_total() > 16 || self.deck.remaining() > 0
    }

    /// The dealer's turn: a dealer who is still playing hits up to a total of
    /// 16 and stands from 17 on; one who is not does nothing.
    pub fn play_dealer(&mut self)
        requires
            old(self)@.dealer_can_play(),
        ensures
            final(self)@ == old(self)@.after_dealer(),
            final(self).deck_cards() == old(self).deck_cards(),
    {
        if self.dealer.still_playing() {
            self.dealer.dealer_play(&mut self.deck);
            self.dealer.check_condition(0);
        }
    }

    /// How many rounds the game is to play.
    pub fn number_of_rounds(&self) -> (n: u16)
        ensures
            n == self@.number_of_rounds,
    {
        self.number_of_rounds
    }

    /// How many rounds were played.
    pub fn played_rounds(&self) -> (n: u16)
        ensures
            n == self@.played_rounds,
    {
        self.played_rounds
    }

    /// Whether a round is still to be played.
    pub fn rounds_left(&self) -> (left: bool)
        ensures
            left == (self@.played_rounds < self@.number_of_rounds),
    {
        self.played_rounds < self.number_of_rounds
    }

    /// Counts the round as played.
    pub fn finish_round(&mut self)
        requires
            old(self)@.played_rounds < old(self)@.number_of_rounds,
        ensures
            final(self)@ == (GameView { played_rounds: old(self)@.played_rounds + 1, ..old(self)@ }),
            final(self).deck_cards() == old(self).deck_cards(),
    {
        self.played_rounds = self.played_rounds + 1;
    }

    /// The players, in the order they were set up.
    pub fn players(&self) -> (players: &Vec<Player>)
        ensures
            players@.len() == self@.players.len(),
            forall|i: int| 0 <= i < players@.len() ==> (#[trigger] players@[i])@ == self@.players[i],
    {
        &self.players
    }

    pub fn dealer(&self) -> (dealer: &Player)
        ensures
            dealer@ == self@.dealer,
    {
        &self.dealer
    }

    /// How many cards are left to deal.
    pub fn cards_left(&self) -> (n: usize)
        ensures
            n == self@.deck.len(),
    {
        self.deck.remaining()
    }

    /// Whether settlement keeps every bankroll within the machine's integer.
    pub fn settlement_fits(&self) -> (fits: bool)
        requires
            self@.dealer.hands.len() > 0,
        ensures
            fits == self@.settlement_fits(),
    {
        let mut i: usize = 0;
        while i < self.players.len()
            invariant
                i <= self.players@.len(),
                self@.players.len() == self.players@.len(),
                self@.dealer.hands.len() > 0,
                forall|j: int|
                    0 <= j < i ==> settled_pot(
                        (#[trigger] self@.players[j]).pot,
                        self@.players[j].hands,
                        self@.dealer.hands[0],
                    ) <= u32::MAX,
            decreases self.players.len() - i,
        {
            let dealer_hand = self.dealer.hand(0);
            let (total, _) = self.players[i].settlement(dealer_hand);
            if total > 0xFFFF_FFFF {
                assert(settled_pot(
                    self@.players[i as int].pot,
                    self@.players[i as int].hands,
                    self@.dealer.hands[0],
                ) > u32::MAX);
                return false;
            }
            i = i + 1;
        }
        true
    }

    /// Settles every hand of every player against the dealer's first hand,
    /// pays the bankrolls, and announces each outcome. The outcomes come back
    /// player by player, hand by hand.
    pub fn verify_results(&mut self) -> (outcomes: Vec<Vec<printer::Result>>)
        requires
            old(self)@.dealer.hands.len() > 0,
            old(self)@.settlement_fits(),
        ensures
            final(self)@ == old(self)@.settled(),
            final(self).deck_cards() == old(self).deck_cards(),
            outcomes@.len() == old(self)@.players.len(),
            forall|i: int|
                0 <= i < outcomes@.len() ==> (#[trigger] outcomes@[i])@ == old(
                    self,
                )@.outcomes_of(i),
    {
        self.printer.print_message(Message::Generic(Generic::VerifyResults), None);
        let mut all: Vec<Vec<printer::Result>> = Vec::new();
        let mut i: usize = 0;
        while i < self.players.len()
            invariant
                i <= self.players@.len(),
                self.players@.len() == old(self).players@.len(),
                self@.players.len() == self.players@.len(),
                old(self)@.players.len() == old(self).players@.len(),
                old(self)@.dealer.hands.len() > 0,
                old(self)@.settlement_fits(),
                forall|j: int|
                    0 <= j < i ==> (#[trigger] self.players@[j])@ == old(self)@.settled().players[j],
                forall|j: int|
                    i <= j < self.players@.len() ==> (#[trigger] self.players@[j])@ == old(
                        self,
                    )@.players[j],
                self.dealer == old(self).dealer,
                self.deck == old(self).deck,
                self.number_of_rounds == old(self).number_of_rounds,
                self.played_rounds == old(self).played_rounds,
                self.turn == old(self).turn,
                self.acting == old(self).acting,
                self.seat == old(self).seat,
                self.slot == old(self).slot,
                all@.len() == i,
                forall|j: int| 0 <= j < i ==> (#[trigger] all@[j])@ == old(self)@.outcomes_of(j),
            decreases self.players.len() - i,
        {
            assert(self.players@[i as int]@ == old(self)@.players[i as int]);
            let dealer_hand = self.dealer.hand(0);
            let outcomes = self.players[i].settle(dealer_hand);
            let mut k: usize = 0;
            while k < outcomes.len()
                invariant
                    i < self.players@.len(),
                decreases outcomes.len() - k,
            {
                self.printer.print_message(Message::Result(outcomes[k]), Some(&self.players[i]));
                k = k + 1;
            }
            all.push(outcomes);
            i = i + 1;
        }
        assert(self@.players =~= old(self)@.settled().players);
        all
    }
}

} // verus!
