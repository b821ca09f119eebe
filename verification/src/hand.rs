//! A hand: cards in the order they came, a bet, and where the hand came from.

use crate::card::Card;
use std::cmp::Ordering;
use vstd::prelude::*;

verus! {

/// The total of `cards`, taken from the first card to the last: each card is
/// valued on top of the total of the cards before it. So the first ace of a
/// hand that comes below 11 counts 11, and every other ace counts 1.
pub open spec fn total_of(cards: Seq<Card>) -> int
    decreases cards.len(),
{
    if cards.len() == 0 {
        0
    } else {
        let before = total_of(cards.drop_last());
        before + cards.last().spec_value(before)
    }
}

/// Each card adds at least 1 and at most 11 to the total.
pub proof fn lemma_total_push(cards: Seq<Card>, card: Card)
    ensures
        total_of(cards.push(card)) == total_of(cards) + card.spec_value(total_of(cards)),
        total_of(cards) + 1 <= total_of(cards.push(card)) <= total_of(cards) + 11,
{
    assert(cards.push(card).drop_last() =~= cards);
}

/// The total lies between the number of cards and eleven times that number.
pub proof fn lemma_total_bounds(cards: Seq<Card>)
    ensures
        cards.len() <= total_of(cards) <= 11 * cards.len(),
    decreases cards.len(),
{
    if cards.len() > 0 {
        lemma_total_bounds(cards.drop_last());
    }
}

/// The total of the first `n` cards is at most the total of all of them.
pub proof fn lemma_total_prefix(cards: Seq<Card>, n: int)
    requires
        0 <= n <= cards.len(),
    ensures
        total_of(cards.take(n)) <= total_of(cards),
    decreases cards.len(),
{
    if n == cards.len() {
        assert(cards.take(n) =~= cards);
    } else {
        lemma_total_prefix(cards.drop_last(), n);
        assert(cards.drop_last().take(n) =~= cards.take(n));
    }
}

/// Once an ace is in the hand, every later ace counts 1: the total has reached
/// 11 by then, whether the earlier ace counted 11 or 1. So at most one ace of
/// a hand counts 11.
pub proof fn lemma_later_ace_counts_one(cards: Seq<Card>, i: int, j: int)
    requires
        0 <= i < j < cards.len(),
        cards[i].figure == crate::card::Figure::Ace,
        cards[j].figure == crate::card::Figure::Ace,
    ensures
        total_of(cards.take(j)) >= 11,
        cards[j].spec_value(total_of(cards.take(j))) == 1,
{
    let upto = cards.take(i + 1);
    assert(upto.drop_last() =~= cards.take(i));
    assert(upto.last() == cards[i]);
    assert(total_of(upto) >= 11) by {
        lemma_total_bounds(cards.take(i));
    }
    lemma_total_prefix(cards.take(j), i + 1);
    assert(cards.take(j).take(i + 1) =~= upto);
}

/// The cards as they are written in a row, with a comma and a space between
/// one and the next.
pub open spec fn cards_text(cards: Seq<Card>) -> Seq<char>
    decreases cards.len(),
{
    if cards.len() == 0 {
        Seq::<char>::empty()
    } else if cards.len() == 1 {
        cards[0].spec_label()
    } else {
        cards_text(cards.drop_last()) + ", "@ + cards.last().spec_label()
    }
}

/// How a hand stands against 21.
#[derive(Debug, Clone, Copy, PartialEq, Eq, Structural)]
pub enum HandCondition {
    Under,
    Blackjack,
    Busted,
}

/// The condition of a hand whose total is `total`.
pub open spec fn condition_of(total: int) -> HandCondition {
    if total <= 20 {
        HandCondition::Under
    } else if total == 21 {
        HandCondition::Blackjack
    } else {
        HandCondition::Busted
    }
}

#[derive(Debug)]
pub struct Hand {
    cards: Vec<Card>,
    bet: u32,
    from_split: bool,
}

/// What a hand is: its cards in the order they were added, its bet, and
/// whether a split opened it.
pub ghost struct HandView {
    pub cards: Seq<Card>,
    pub bet: int,
    pub from_split: bool,
}

impl HandView {
    /// The total of the cards, in insertion order.
    pub open spec fn total(self) -> int {
        total_of(self.cards)
    }

    /// The condition of the hand.
    pub open spec fn condition(self) -> HandCondition {
        condition_of(self.total())
    }

    /// Whether every card has the rank of the first.
    pub open spec fn cards_are_equal(self) -> bool {
        forall|i: int| 0 <= i < self.cards.len() ==> #[trigger] self.cards[i].same_rank(self.cards[0])
    }

    /// The hand with `card` put behind its cards.
    pub open spec fn with_card(self, card: Card) -> HandView {
        HandView { cards: self.cards.push(card), ..self }
    }

    /// The hand without its last card.
    pub open spec fn without_last(self) -> HandView {
        HandView { cards: self.cards.drop_last(), ..self }
    }

    /// The hand with its bet doubled.
    pub open spec fn doubled(self) -> HandView {
        HandView { bet: 2 * self.bet, ..self }
    }
}

impl View for Hand {
    type V = HandView;

    closed spec fn view(&self) -> HandView {
        HandView { cards: self.cards@, bet: self.bet as int, from_split: self.from_split }
    }
}

impl Hand {
    /// The total of the hand's cards, in insertion order.
    pub open spec fn spec_total(&self) -> int {
        self@.total()
    }

    /// A hand with the given bet, holding `first_card` if there is one.
    pub fn new(from_split: bool, bet: u32, first_card: Option<Card>) -> (hand: Hand)
        ensures
            hand@ == (HandView {
                cards: match first_card {
                    Some(card) => seq![card],
                    None => Seq::<Card>::empty(),
                },
                bet: bet as int,
                from_split,
            }),
    {
        let mut cards: Vec<Card> = Vec::new();
        if let Some(card) = first_card {
            cards.push(card);
            assert(cards@ =~= seq![card]);
        }
        Hand { cards, bet, from_split }
    }

    /// Puts `card` behind the cards of the hand.
    pub fn add_card_to_hand(&mut self, card: Card)
        ensures
            final(self)@ == old(self)@.with_card(card),
    {
        self.cards.push(card);
    }

    /// Doubles the bet.
    pub fn double_bet(&mut self)
        requires
            2 * old(self)@.bet <= u32::MAX,
        ensures
            final(self)@ == old(self)@.doubled(),
    {
        self.bet = self.bet * 2;
    }

    /// The total of the hand, for a hand of any length.
    pub fn exact_total(&self) -> (total: u128)
        ensures
            total == self.spec_total(),
    {
        let mut acc: u128 = 0;
        let mut i: usize = 0;
        while i < self.cards.len()
            invariant
                i <= self.cards@.len(),
                acc == total_of(self.cards@.take(i as int)),
                acc <= 11 * i,
            decreases self.cards.len() - i,
        {
            let card = self.cards[i];
            proof {
                lemma_total_push(self.cards@.take(i as int), card);
                assert(self.cards@.take(i as int).push(card) =~= self.cards@.take(i + 1));
            }
            let seen: u8 = if acc >= 11 {
                11
            } else {
                acc as u8
            };
            acc = acc + card.value(seen) as u128;
            i = i + 1;
        }
        assert(self.cards@.take(i as int) =~= self.cards@);
        acc
    }

    /// The total of the hand, where it fits in a byte: every hand of up to 23
    /// cards does.
    pub fn sum_value(&self) -> (total: u8)
        requires
            self.spec_total() <= u8::MAX,
        ensures
            total == self.spec_total(),
    {
        let total = self.exact_total();
        total as u8
    }

    /// The cards, in the order they were added.
    pub fn cards(&self) -> (cards: &Vec<Card>)
        ensures
            cards@ == self@.cards,
    {
        &self.cards
    }

    /// How a hand is written: the word `cards`, a colon, and the cards in a
    /// row.
    pub fn label(&self) -> (text: String)
        ensures
            text@ == "cards: "@ + cards_text(self@.cards),
    {
        let mut text = String::from_str("cards: ");
        let mut i: usize = 0;
        assert(self.cards@.take(0) =~= Seq::<Card>::empty());
        assert(text@ =~= "cards: "@ + cards_text(self.cards@.take(0)));
        while i < self.cards.len()
            invariant
                i <= self.cards@.len(),
                text@ == "cards: "@ + cards_text(self.cards@.take(i as int)),
            decreases self.cards.len() - i,
        {
            let ghost so_far = self.cards@.take(i as int);
            let ghost next = self.cards@.take(i + 1);
            assert(next.drop_last() =~= so_far);
            assert(next.last() == self.cards@[i as int]);
            if i > 0 {
                text.append(", ");
            }
            let label = self.cards[i].label();
            text.append(label.as_str());
            proof {
                if i > 0 {
                    assert(text@ =~= "cards: "@ + cards_text(next));
                } else {
                    assert(so_far.len() == 0);
                    assert(text@ =~= "cards: "@ + cards_text(next));
                }
            }
            i = i + 1;
        }
        assert(self.cards@.take(i as int) =~= self.cards@);
        text
    }

    /// The number of cards.
    pub fn size(&self) -> (n: usize)
        ensures
            n == self@.cards.len(),
    {
        self.cards.len()
    }

    /// The condition of the hand: a function of its total alone.
    pub fn check_hand(&self) -> (condition: HandCondition)
        ensures
            condition == self@.condition(),
    {
        let total = self.exact_total();
        if total <= 20 {
            HandCondition::Under
        } else if total == 21 {
            HandCondition::Blackjack
        } else {
            HandCondition::Busted
        }
    }

    /// Takes the last card off the hand, and reports it with the bet, which
    /// stays as it is. An empty hand gives no card.
    pub fn split(&mut self) -> (out: (Option<Card>, u32))
        ensures
            out.1 == old(self)@.bet,
            old(self)@.cards.len() == 0 ==> out.0.is_none() && final(self)@ == old(self)@,
            old(self)@.cards.len() > 0 ==> out.0 == Some(old(self)@.cards.last()) && final(self)@
                == old(self)@.without_last(),
    {
        let card = self.cards.pop();
        assert(old(self).cards@.len() > 0 ==> self.cards@ =~= old(self).cards@.drop_last());
        (card, self.bet)
    }

    pub fn current_bet(&self) -> (bet: u32)
        ensures
            bet == self@.bet,
    {
        self.bet
    }

    /// Whether the hand was opened by a split.
    pub fn is_from_split(&self) -> (b: bool)
        ensures
            b == self@.from_split,
    {
        self.from_split
    }

    /// Whether every card of the hand has the rank of the first: with two
    /// cards, whether they are a pair.
    pub fn cards_are_equal(&self) -> (b: bool)
        ensures
            b == self@.cards_are_equal(),
    {
        let mut i: usize = 0;
        while i < self.cards.len()
            invariant
                i <= self.cards@.len(),
                forall|j: int| 0 <= j < i ==> #[trigger] self.cards@[j].same_rank(self.cards@[0]),
            decreases self.cards.len() - i,
        {
            let same = self.cards[i] == self.cards[0];
            assert(same == self@.cards[i as int].same_rank(self@.cards[0]));
            if !same {
                return false;
            }
            i = i + 1;
        }
        true
    }
}

/// The condition of a hand depends on its total alone, whatever the cards:
/// up to 20 it is under, at 21 a blackjack, above 21 busted.
pub proof fn lemma_condition_by_total(a: HandView, b: HandView)
    ensures
        a.total() == b.total() ==> a.condition() == b.condition(),
        a.total() <= 20 <==> a.condition() == HandCondition::Under,
        a.total() == 21 <==> a.condition() == HandCondition::Blackjack,
        a.total() > 21 <==> a.condition() == HandCondition::Busted,
{
}

/// `==` on hands compares their totals.
impl PartialEq for Hand {
    fn eq(&self, other: &Self) -> (r: bool) {
        self.exact_total() == other.exact_total()
    }
}

impl vstd::std_specs::cmp::PartialEqSpecImpl for Hand {
    open spec fn obeys_eq_spec() -> bool {
        true
    }

    open spec fn eq_spec(&self, other: &Self) -> bool {
        self.spec_total() == other.spec_total()
    }
}

/// `<` on hands compares their totals.
impl PartialOrd for Hand {
    fn partial_cmp(&self, other: &Self) -> (r: Option<Ordering>) {
        let mine = self.exact_total();
        let theirs = other.exact_total();
        if mine < theirs {
            Some(Ordering::Less)
        } else if mine == theirs {
            Some(Ordering::Equal)
        } else {
            Some(Ordering::Greater)
        }
    }
}

impl vstd::std_specs::cmp::PartialOrdSpecImpl for Hand {
    open spec fn obeys_partial_cmp_spec() -> bool {
        true
    }

    open spec fn partial_cmp_spec(&self, other: &Self) -> Option<Ordering> {
        if self.spec_total() < other.spec_total() {
            Some(Ordering::Less)
        } else if self.spec_total() == other.spec_total() {
            Some(Ordering::Equal)
        } else {
            Some(Ordering::Greater)
        }
    }
}

} // verus!
