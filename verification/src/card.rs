//! Cards: suit, rank, and the value of a rank given the running total of a hand.

use vstd::prelude::*;

verus! {

/// The suit of a card. It is cosmetic: no rule reads it.
#[derive(Debug, Clone, Copy, PartialEq, Eq, Structural)]
pub enum Suit {
    Hearts,
    Spades,
    Clubs,
    Diamods,
}

/// The rank of a card.
#[derive(Debug, Clone, Copy, PartialEq, Eq, Structural)]
pub enum Figure {
    Two,
    Three,
    Four,
    Five,
    Six,
    Seven,
    Eight,
    Nine,
    Ten,
    Jack,
    Queen,
    King,
    Ace,
}

/// The four suits, in their declared order.
pub open spec fn suits() -> Seq<Suit> {
    seq![Suit::Hearts, Suit::Spades, Suit::Clubs, Suit::Diamods]
}

/// The thirteen ranks, in their declared order.
pub open spec fn figures() -> Seq<Figure> {
    seq![
        Figure::Two,
        Figure::Three,
        Figure::Four,
        Figure::Five,
        Figure::Six,
        Figure::Seven,
        Figure::Eight,
        Figure::Nine,
        Figure::Ten,
        Figure::Jack,
        Figure::Queen,
        Figure::King,
        Figure::Ace,
    ]
}

impl Suit {
    /// The sign that a suit is written with.
    pub open spec fn spec_symbol(self) -> Seq<char> {
        match self {
            Suit::Hearts => "\u{2665} "@,
            Suit::Spades => "\u{2660}"@,
            Suit::Clubs => "\u{2663}"@,
            Suit::Diamods => "\u{2666}"@,
        }
    }

    /// The sign that a suit is written with.
    pub fn symbol(&self) -> (text: &'static str)
        ensures
            text@ == self.spec_symbol(),
    {
        match self {
            Suit::Hearts => "\u{2665} ",
            Suit::Spades => "\u{2660}",
            Suit::Clubs => "\u{2663}",
            Suit::Diamods => "\u{2666}",
        }
    }

    /// Every suit once, in declared order.
    pub fn all() -> (out: Vec<Suit>)
        ensures
            out@ == suits(),
    {
        let out = vec![Suit::Hearts, Suit::Spades, Suit::Clubs, Suit::Diamods];
        assert(out@ =~= suits());
        out
    }
}

impl Figure {
    /// What this rank is worth when `hand_sum` is the total of the cards that
    /// were put into the hand before it: an ace is 11 below a running total of
    /// 11 and 1 from there on, a face card is 10, a number its face value.
    pub open spec fn spec_value(self, hand_sum: int) -> int {
        match self {
            Figure::Two => 2,
            Figure::Three => 3,
            Figure::Four => 4,
            Figure::Five => 5,
            Figure::Six => 6,
            Figure::Seven => 7,
            Figure::Eight => 8,
            Figure::Nine => 9,
            Figure::Ten | Figure::Jack | Figure::Queen | Figure::King => 10,
            Figure::Ace => if hand_sum >= 11 {
                1
            } else {
                11
            },
        }
    }

    /// How a rank is written: a number by its digits, the others by their
    /// first letter.
    pub open spec fn spec_symbol(self) -> Seq<char> {
        match self {
            Figure::Two => "2"@,
            Figure::Three => "3"@,
            Figure::Four => "4"@,
            Figure::Five => "5"@,
            Figure::Six => "6"@,
            Figure::Seven => "7"@,
            Figure::Eight => "8"@,
            Figure::Nine => "9"@,
            Figure::Ten => "10"@,
            Figure::Jack => "J"@,
            Figure::Queen => "Q"@,
            Figure::King => "K"@,
            Figure::Ace => "A"@,
        }
    }

    /// How a rank is written.
    pub fn symbol(&self) -> (text: &'static str)
        ensures
            text@ == self.spec_symbol(),
    {
        match self {
            Figure::Two => "2",
            Figure::Three => "3",
            Figure::Four => "4",
            Figure::Five => "5",
            Figure::Six => "6",
            Figure::Seven => "7",
            Figure::Eight => "8",
            Figure::Nine => "9",
            Figure::Ten => "10",
            Figure::Jack => "J",
            Figure::Queen => "Q",
            Figure::King => "K",
            Figure::Ace => "A",
        }
    }

    /// Every rank once, in declared order.
    pub fn all() -> (out: Vec<Figure>)
        ensures
            out@ == figures(),
    {
        let out = vec![
            Figure::Two,
            Figure::Three,
            Figure::Four,
            Figure::Five,
            Figure::Six,
            Figure::Seven,
            Figure::Eight,
            Figure::Nine,
            Figure::Ten,
            Figure::Jack,
            Figure::Queen,
            Figure::King,
            Figure::Ace,
        ];
        assert(out@ =~= figures());
        out
    }

    /// The value of this rank on top of a running total of `hand_sum`.
    pub fn value(&self, hand_sum: u8) -> (v: u8)
        ensures
            v == self.spec_value(hand_sum as int),
            1 <= v <= 11,
    {
        match self {
            Figure::Two => 2,
            Figure::Three => 3,
            Figure::Four => 4,
            Figure::Five => 5,
            Figure::Six => 6,
            Figure::Seven => 7,
            Figure::Eight => 8,
            Figure::Nine => 9,
            Figure::Ten | Figure::Jack | Figure::Queen | Figure::King => 10,
            Figure::Ace => {
                if hand_sum >= 11 {
                    1
                } else {
                    11
                }
            },
        }
    }
}

/// An immutable pair of suit and rank.
#[derive(Debug, Clone, Copy)]
pub struct Card {
    pub suit: Suit,
    pub figure: Figure,
}

impl Card {
    pub fn new(suit: Suit, figure: Figure) -> (card: Card)
        ensures
            card == (Card { suit, figure }),
    {
        Card { suit, figure }
    }

    /// The value of the card on top of a running total of `hand_sum`.
    pub open spec fn spec_value(self, hand_sum: int) -> int {
        self.figure.spec_value(hand_sum)
    }

    /// How a card is written: the rank, then the suit.
    pub open spec fn spec_label(self) -> Seq<char> {
        self.figure.spec_symbol() + self.suit.spec_symbol()
    }

    /// How a card is written: the rank, then the suit.
    pub fn label(&self) -> (text: String)
        ensures
            text@ == self.spec_label(),
    {
        String::from_str(self.figure.symbol()).concat(self.suit.symbol())
    }

    /// Two cards make a pair when their ranks agree, whatever their suits.
    pub open spec fn same_rank(self, other: Card) -> bool {
        self.figure == other.figure
    }

    /// The value of the card on top of a running total of `hand_sum`.
    pub fn value(&self, hand_sum: u8) -> (v: u8)
        ensures
            v == self.spec_value(hand_sum as int),
            1 <= v <= 11,
    {
        self.figure.value(hand_sum)
    }

    pub fn suit(&self) -> (s: Suit)
        ensures
            s == self.suit,
    {
        self.suit
    }

    pub fn figure(&self) -> (f: Figure)
        ensures
            f == self.figure,
    {
        self.figure
    }
}

/// `==` on cards compares the ranks only.
impl PartialEq for Card {
    fn eq(&self, other: &Self) -> (r: bool) {
        self.figure == other.figure
    }
}

impl Eq for Card {

}

impl vstd::std_specs::cmp::PartialEqSpecImpl for Card {
    open spec fn obeys_eq_spec() -> bool {
        true
    }

    open spec fn eq_spec(&self, other: &Self) -> bool {
        self.figure == other.figure
    }
}

} // verus!
