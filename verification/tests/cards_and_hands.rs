use blackjack::card::{Card, Figure, Suit};
use blackjack::hand::{Hand, HandCondition};

fn hand_of(bet: u32, figures: &[Figure]) -> Hand {
    let mut hand = Hand::new(false, bet, None);
    for figure in figures {
        hand.add_card_to_hand(Card::new(Suit::Clubs, *figure));
    }
    hand
}

#[test]
fn number_cards_count_their_face_value() {
    let expected = [
        (Figure::Two, 2),
        (Figure::Three, 3),
        (Figure::Four, 4),
        (Figure::Five, 5),
        (Figure::Six, 6),
        (Figure::Seven, 7),
        (Figure::Eight, 8),
        (Figure::Nine, 9),
        (Figure::Ten, 10),
    ];
    for (figure, value) in expected {
        assert_eq!(figure.value(0), value);
        assert_eq!(figure.value(15), value);
    }
}

#[test]
fn face_cards_count_ten() {
    for figure in [Figure::Jack, Figure::Queen, Figure::King] {
        assert_eq!(figure.value(0), 10);
        assert_eq!(figure.value(20), 10);
    }
}

#[test]
fn ace_counts_eleven_below_eleven_and_one_from_there() {
    assert_eq!(Figure::Ace.value(0), 11);
    assert_eq!(Figure::Ace.value(10), 11);
    assert_eq!(Figure::Ace.value(11), 1);
    assert_eq!(Figure::Ace.value(200), 1);
    assert_eq!(Card::new(Suit::Hearts, Figure::Ace).value(10), 11);
    assert_eq!(Card::new(Suit::Hearts, Figure::Ace).value(11), 1);
}

#[test]
fn every_suit_and_figure_once_in_declared_order() {
    assert_eq!(Suit::all(), vec![Suit::Hearts, Suit::Spades, Suit::Clubs, Suit::Diamods]);
    let figures = Figure::all();
    assert_eq!(figures.len(), 13);
    assert_eq!(figures[0], Figure::Two);
    assert_eq!(figures[8], Figure::Ten);
    assert_eq!(figures[12], Figure::Ace);
}

#[test]
fn cards_are_equal_by_rank_alone() {
    assert!(Card::new(Suit::Clubs, Figure::Eight) == Card::new(Suit::Diamods, Figure::Eight));
    assert!(Card::new(Suit::Clubs, Figure::Eight) != Card::new(Suit::Clubs, Figure::Nine));
    let card = Card::new(Suit::Spades, Figure::Queen);
    assert_eq!(card.suit(), Suit::Spades);
    assert_eq!(card.figure(), Figure::Queen);
}

#[test]
fn two_aces_total_twelve() {
    let hand = hand_of(10, &[Figure::Ace, Figure::Ace]);
    assert_eq!(hand.sum_value(), 12);
    assert_eq!(hand.exact_total(), 12);
    assert_eq!(hand.check_hand(), HandCondition::Under);
}

#[test]
fn the_total_depends_on_the_order_of_the_cards() {
    assert_eq!(hand_of(10, &[Figure::Ace, Figure::Five, Figure::King]).sum_value(), 26);
    assert_eq!(hand_of(10, &[Figure::King, Figure::Five, Figure::Ace]).sum_value(), 16);
    assert_eq!(hand_of(10, &[Figure::King, Figure::Ace]).sum_value(), 21);
    assert_eq!(hand_of(10, &[Figure::Ace, Figure::King]).sum_value(), 21);
    assert_eq!(hand_of(10, &[Figure::Five, Figure::Ace, Figure::Ace]).sum_value(), 17);
}

#[test]
fn the_total_is_the_same_each_time_it_is_asked() {
    let hand = hand_of(10, &[Figure::Ace, Figure::Ace, Figure::Nine]);
    assert_eq!(hand.sum_value(), 21);
    assert_eq!(hand.sum_value(), 21);
}

#[test]
fn an_empty_hand_totals_zero_and_is_under() {
    let hand = Hand::new(false, 5, None);
    assert_eq!(hand.size(), 0);
    assert_eq!(hand.sum_value(), 0);
    assert_eq!(hand.check_hand(), HandCondition::Under);
    assert!(hand.cards_are_equal());
}

#[test]
fn a_long_hand_has_an_exact_total() {
    let mut hand = Hand::new(false, 1, None);
    for _ in 0..40 {
        hand.add_card_to_hand(Card::new(Suit::Hearts, Figure::King));
    }
    assert_eq!(hand.exact_total(), 400);
    assert_eq!(hand.check_hand(), HandCondition::Busted);
}

#[test]
fn the_condition_follows_the_total() {
    assert_eq!(hand_of(1, &[Figure::King, Figure::Queen]).check_hand(), HandCondition::Under);
    assert_eq!(hand_of(1, &[Figure::King, Figure::Ace]).check_hand(), HandCondition::Blackjack);
    assert_eq!(
        hand_of(1, &[Figure::King, Figure::Five, Figure::Six]).check_hand(),
        HandCondition::Blackjack
    );
    assert_eq!(
        hand_of(1, &[Figure::King, Figure::Queen, Figure::Two]).check_hand(),
        HandCondition::Busted
    );
}

#[test]
fn a_pair_is_two_cards_of_one_rank() {
    let mut tens = Hand::new(false, 10, Some(Card::new(Suit::Clubs, Figure::Ten)));
    tens.add_card_to_hand(Card::new(Suit::Diamods, Figure::Ten));
    assert!(tens.cards_are_equal());

    let mut ten_nine = Hand::new(false, 10, Some(Card::new(Suit::Clubs, Figure::Ten)));
    ten_nine.add_card_to_hand(Card::new(Suit::Diamods, Figure::Nine));
    assert!(!ten_nine.cards_are_equal());
}

#[test]
fn ten_and_king_share_a_value_and_not_a_rank() {
    let ten = Card::new(Suit::Clubs, Figure::Ten);
    let king = Card::new(Suit::Diamods, Figure::King);
    assert_eq!(ten.value(0), king.value(0));
    let mut hand = Hand::new(false, 10, Some(ten));
    hand.add_card_to_hand(king);
    assert!(!hand.cards_are_equal());
}

#[test]
fn new_hand_holds_the_first_card_and_the_bet() {
    let hand = Hand::new(true, 15, Some(Card::new(Suit::Hearts, Figure::Seven)));
    assert_eq!(hand.size(), 1);
    assert_eq!(hand.current_bet(), 15);
    assert!(hand.is_from_split());
    assert_eq!(hand.sum_value(), 7);
}

#[test]
fn double_bet_doubles() {
    let mut hand = hand_of(10, &[Figure::Five, Figure::Six]);
    hand.double_bet();
    assert_eq!(hand.current_bet(), 20);
    assert_eq!(hand.size(), 2);
}

#[test]
fn split_takes_the_last_card_and_keeps_the_bet() {
    let mut hand = Hand::new(false, 10, Some(Card::new(Suit::Diamods, Figure::Eight)));
    hand.add_card_to_hand(Card::new(Suit::Spades, Figure::Eight));
    let (card, bet) = hand.split();
    let card = card.unwrap();
    assert_eq!(card.suit(), Suit::Spades);
    assert_eq!(card.figure(), Figure::Eight);
    assert_eq!(bet, 10);
    assert_eq!(hand.current_bet(), 10);
    assert_eq!(hand.size(), 1);
    assert_eq!(hand.sum_value(), 8);
}

#[test]
fn split_of_an_empty_hand_gives_no_card() {
    let mut hand = Hand::new(false, 4, None);
    let (card, bet) = hand.split();
    assert!(card.is_none());
    assert_eq!(bet, 4);
    assert_eq!(hand.size(), 0);
}

#[test]
fn hands_compare_by_their_totals() {
    let nineteen = hand_of(10, &[Figure::King, Figure::Nine]);
    let also_nineteen = hand_of(50, &[Figure::Nine, Figure::Five, Figure::Five]);
    let seventeen = hand_of(10, &[Figure::King, Figure::Seven]);
    assert!(nineteen == also_nineteen);
    assert!(nineteen != seventeen);
    assert!(nineteen > seventeen);
    assert!(seventeen < nineteen);
    assert!(!(nineteen > also_nineteen));
    assert_eq!(nineteen.partial_cmp(&seventeen), Some(std::cmp::Ordering::Greater));
    assert_eq!(nineteen.partial_cmp(&also_nineteen), Some(std::cmp::Ordering::Equal));
}

#[test]
fn cards_and_hands_are_written_rank_first() {
    assert_eq!(Card::new(Suit::Spades, Figure::Ten).label(), "10\u{2660}");
    assert_eq!(Card::new(Suit::Hearts, Figure::Ace).label(), "A\u{2665} ");
    assert_eq!(Card::new(Suit::Clubs, Figure::Two).label(), "2\u{2663}");
    assert_eq!(Card::new(Suit::Diamods, Figure::Queen).label(), "Q\u{2666}");
    assert_eq!(Figure::Jack.symbol(), "J");
    assert_eq!(Figure::King.symbol(), "K");
    assert_eq!(Hand::new(false, 1, None).label(), "cards: ");
    assert_eq!(hand_of(1, &[Figure::Nine]).label(), "cards: 9\u{2663}");
    assert_eq!(
        hand_of(1, &[Figure::Nine, Figure::Ace, Figure::Ten]).label(),
        "cards: 9\u{2663}, A\u{2663}, 10\u{2663}"
    );
    assert_eq!(hand_of(1, &[Figure::Nine, Figure::Ace]).cards().len(), 2);
}
