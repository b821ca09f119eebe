use blackjack::action::Action;
use blackjack::card::{Card, Figure, Suit};
use blackjack::deck::Deck;
use blackjack::error::GameError;
use blackjack::hand::HandCondition;
use blackjack::player::{Player, PlayerKind, PlayerStatus};

fn card(figure: Figure) -> Card {
    Card::new(Suit::Hearts, figure)
}

fn player_with(pot: u32, bet: u32, figures: &[Figure]) -> Player {
    let mut player = Player::new("Ann".to_string(), pot, PlayerKind::Player);
    player.new_hand(bet, None).unwrap();
    for figure in figures {
        player.add_card_to_hand(card(*figure), 0);
    }
    player
}

fn dealer_with(figures: &[Figure]) -> Player {
    let mut dealer = Player::new("Dealer".to_string(), 0, PlayerKind::Dealer);
    dealer.new_hand(0, None).unwrap();
    for figure in figures {
        dealer.add_card_to_hand(card(*figure), 0);
    }
    dealer
}

fn deck_dealing(figures: &[Figure]) -> Deck {
    let mut cards: Vec<Card> = figures.iter().map(|f| Card::new(Suit::Clubs, *f)).collect();
    cards.reverse();
    Deck::with_order(cards)
}

#[test]
fn a_new_player_is_playing_and_holds_nothing() {
    let player = Player::new("Ann".to_string(), 100, PlayerKind::Player);
    assert_eq!(player.name, "Ann");
    assert_eq!(player.pot(), 100);
    assert_eq!(player.kind(), PlayerKind::Player);
    assert_eq!(player.status(), PlayerStatus::Playing);
    assert!(player.still_playing());
    assert_eq!(player.hands_count(), 0);
}

#[test]
fn a_bet_above_the_bankroll_is_refused() {
    let mut player = Player::new("Ann".to_string(), 15, PlayerKind::Player);
    assert_eq!(player.new_hand(16, None), Err(GameError::InsufficientBankroll));
    assert_eq!(player.hands_count(), 0);
    assert_eq!(player.new_hand(15, Some(card(Figure::Two))), Ok(()));
    assert_eq!(player.hands_count(), 1);
    assert_eq!(player.hand(0).current_bet(), 15);
    assert_eq!(player.hand(0).size(), 1);
    assert!(!player.hand(0).is_from_split());
}

#[test]
fn double_down_is_legal_when_the_bankroll_covers_every_hand() {
    let player = player_with(20, 10, &[Figure::Five, Figure::Six]);
    assert!(player.can_take(0, Action::DoubleDown));

    let mut two_hands = player_with(20, 10, &[Figure::Five, Figure::Six]);
    two_hands.new_hand(10, Some(card(Figure::Five))).unwrap();
    assert!(two_hands.can_take(0, Action::DoubleDown));

    let mut short = player_with(19, 10, &[Figure::Five, Figure::Six]);
    short.new_hand(10, Some(card(Figure::Five))).unwrap();
    assert!(!short.can_take(0, Action::DoubleDown));
}

#[test]
fn hit_adds_the_next_card() {
    let mut player = player_with(100, 10, &[Figure::Five, Figure::Six]);
    let mut deck = deck_dealing(&[Figure::Four, Figure::Nine]);
    assert_eq!(player.play(0, Action::Hit, &mut deck), Ok(PlayerStatus::Playing));
    assert_eq!(player.hand(0).size(), 3);
    assert_eq!(player.hand(0).sum_value(), 15);
    assert_eq!(deck.remaining(), 1);
    assert_eq!(player.hand(0).current_bet(), 10);
}

#[test]
fn a_hit_to_21_wins_and_a_hit_above_loses() {
    let mut player = player_with(100, 10, &[Figure::Five, Figure::Six]);
    let mut deck = deck_dealing(&[Figure::King]);
    assert_eq!(player.play(0, Action::Hit, &mut deck), Ok(PlayerStatus::Won));
    assert_eq!(player.check_hand(0), HandCondition::Blackjack);

    let mut player = player_with(100, 10, &[Figure::King, Figure::Six]);
    let mut deck = deck_dealing(&[Figure::King]);
    assert_eq!(player.play(0, Action::Hit, &mut deck), Ok(PlayerStatus::Lost));
    assert_eq!(player.check_hand(0), HandCondition::Busted);
    assert!(!player.still_playing());
}

#[test]
fn stand_ends_the_play_and_draws_nothing() {
    let mut player = player_with(100, 10, &[Figure::King, Figure::Six]);
    let mut deck = deck_dealing(&[Figure::King]);
    assert_eq!(player.play(0, Action::Stand, &mut deck), Ok(PlayerStatus::Standing));
    assert_eq!(deck.remaining(), 1);
    assert_eq!(player.hand(0).size(), 2);
}

#[test]
fn a_status_once_set_is_not_derived_again() {
    let mut player = player_with(100, 10, &[Figure::King, Figure::Six]);
    let mut deck = deck_dealing(&[Figure::King, Figure::King]);
    player.play(0, Action::Stand, &mut deck).unwrap();
    assert_eq!(player.play(0, Action::Hit, &mut deck), Ok(PlayerStatus::Standing));
    assert_eq!(player.hand(0).sum_value(), 26);
    assert_eq!(player.check_condition(0), PlayerStatus::Standing);
}

#[test]
fn double_down_draws_one_card_doubles_the_bet_and_stands() {
    let mut player = player_with(20, 10, &[Figure::Five, Figure::Six]);
    let mut deck = deck_dealing(&[Figure::Nine, Figure::Two]);
    assert_eq!(player.play(0, Action::DoubleDown, &mut deck), Ok(PlayerStatus::Standing));
    assert_eq!(player.hand(0).size(), 3);
    assert_eq!(player.hand(0).sum_value(), 20);
    assert_eq!(player.hand(0).current_bet(), 20);
    assert_eq!(deck.remaining(), 1);
    assert_eq!(player.pot(), 20);
}

#[test]
fn split_opens_a_second_hand_and_deals_to_the_first_hand_first() {
    let mut player = Player::new("Ann".to_string(), 20, PlayerKind::Player);
    player.new_hand(10, Some(Card::new(Suit::Diamods, Figure::Eight))).unwrap();
    player.add_card_to_hand(Card::new(Suit::Spades, Figure::Eight), 0);
    assert!(player.can_take(0, Action::Split));
    let mut deck = deck_dealing(&[Figure::Three, Figure::Ten, Figure::King]);

    assert_eq!(player.play(0, Action::Split, &mut deck), Ok(PlayerStatus::Playing));

    assert_eq!(player.hands_count(), 2);
    assert_eq!(player.hand(0).size(), 2);
    assert_eq!(player.hand(1).size(), 2);
    assert_eq!(player.hand(0).sum_value(), 11);
    assert_eq!(player.hand(1).sum_value(), 18);
    assert_eq!(player.hand(0).current_bet(), 10);
    assert_eq!(player.hand(1).current_bet(), 10);
    assert!(!player.hand(0).is_from_split());
    assert!(player.hand(1).is_from_split());
    assert_eq!(deck.remaining(), 1);
    assert_eq!(player.pot(), 20);
}

#[test]
fn after_a_split_the_menu_counts_both_hands() {
    let mut player = player_with(20, 10, &[Figure::Eight, Figure::Eight]);
    let mut deck = deck_dealing(&[Figure::Eight, Figure::Ten]);
    player.play(0, Action::Split, &mut deck).unwrap();
    assert_eq!(
        player.legal_actions(0),
        vec![Action::Hit, Action::Stand, Action::DoubleDown, Action::Split]
    );
    assert_eq!(player.legal_actions(1), vec![Action::Hit, Action::Stand, Action::DoubleDown]);

    let mut poorer = player_with(19, 10, &[Figure::Eight, Figure::Eight]);
    let mut deck = deck_dealing(&[Figure::Eight, Figure::Ten]);
    poorer.play(0, Action::Split, &mut deck).unwrap();
    assert_eq!(poorer.legal_actions(0), vec![Action::Hit, Action::Stand]);
}

#[test]
fn surrender_loses_at_once() {
    let mut player = player_with(100, 10, &[Figure::King, Figure::Six]);
    let mut deck = deck_dealing(&[Figure::Two]);
    assert_eq!(player.play(0, Action::Surrender, &mut deck), Ok(PlayerStatus::Lost));
    assert_eq!(deck.remaining(), 1);
    assert_eq!(player.hand(0).size(), 2);
}

#[test]
fn an_action_off_the_menu_is_refused_and_changes_nothing() {
    let mut player = player_with(100, 10, &[Figure::King, Figure::Six]);
    let mut deck = deck_dealing(&[Figure::Two, Figure::Three]);
    assert_eq!(player.play(0, Action::Split, &mut deck), Err(GameError::IllegalAction));
    assert_eq!(player.hands_count(), 1);
    assert_eq!(player.hand(0).size(), 2);
    assert_eq!(deck.remaining(), 2);
    assert_eq!(player.status(), PlayerStatus::Playing);

    player.add_card_to_hand(card(Figure::Two), 0);
    assert_eq!(player.play(0, Action::Surrender, &mut deck), Err(GameError::IllegalAction));
    assert_eq!(player.play(0, Action::DoubleDown, &mut deck), Err(GameError::IllegalAction));
    assert_eq!(player.player_play(0, Action::Split, &mut deck), Err(GameError::IllegalAction));
    assert_eq!(deck.remaining(), 2);
}

#[test]
fn the_dealer_hits_on_16() {
    for figures in [
        vec![Figure::King, Figure::Six],
        vec![Figure::Nine, Figure::Seven],
        vec![Figure::Five, Figure::Ace],
        vec![Figure::Four, Figure::Four, Figure::Four, Figure::Four],
    ] {
        let mut dealer = dealer_with(&figures);
        assert_eq!(dealer.hand(0).sum_value(), 16);
        let mut deck = deck_dealing(&[Figure::Two, Figure::Three]);
        assert_eq!(dealer.dealer_play(&mut deck), Action::Hit);
        assert_eq!(dealer.hand(0).sum_value(), 18);
        assert_eq!(deck.remaining(), 1);
        assert_eq!(dealer.status(), PlayerStatus::Playing);
    }
}

#[test]
fn the_dealer_stands_on_17() {
    for figures in [
        vec![Figure::King, Figure::Seven],
        vec![Figure::Six, Figure::Ace],
        vec![Figure::Nine, Figure::Eight],
        vec![Figure::Five, Figure::Five, Figure::Seven],
    ] {
        let mut dealer = dealer_with(&figures);
        assert_eq!(dealer.hand(0).sum_value(), 17);
        let mut deck = deck_dealing(&[Figure::Two]);
        assert_eq!(dealer.dealer_play(&mut deck), Action::Stand);
        assert_eq!(dealer.hand(0).size(), figures.len());
        assert_eq!(deck.remaining(), 1);
        assert_eq!(dealer.status(), PlayerStatus::Standing);
    }
}

#[test]
fn a_dealer_plays_the_policy_whatever_is_chosen() {
    let mut dealer = dealer_with(&[Figure::King, Figure::Five]);
    let mut deck = deck_dealing(&[Figure::Six]);
    assert_eq!(dealer.play(0, Action::Surrender, &mut deck), Ok(PlayerStatus::Won));
    assert_eq!(dealer.hand(0).sum_value(), 21);

    let mut dealer = dealer_with(&[Figure::King, Figure::Nine]);
    assert_eq!(dealer.play(0, Action::Hit, &mut deck), Ok(PlayerStatus::Standing));
    assert_eq!(dealer.hand(0).size(), 2);
}

#[test]
fn what_can_be_carried_out() {
    let player = player_with(100, 10, &[Figure::Eight, Figure::Eight]);
    assert!(player.can_carry_out(0, Action::Split, 2));
    assert!(!player.can_carry_out(0, Action::Split, 1));
    assert!(player.can_carry_out(0, Action::Hit, 1));
    assert!(!player.can_carry_out(0, Action::Hit, 0));
    assert!(player.can_carry_out(0, Action::Stand, 0));
    assert!(!player.can_carry_out(1, Action::Stand, 5));
    assert!(player.can_play(0, Action::Hit, 1));
    assert!(!player.can_play(0, Action::Hit, 0));
    assert!(!player.can_play(3, Action::Stand, 9));

    let rich = player_with(u32::MAX, u32::MAX, &[Figure::Eight, Figure::Eight]);
    assert!(rich.can_take(0, Action::DoubleDown));
    assert!(!rich.can_carry_out(0, Action::DoubleDown, 5));
}
