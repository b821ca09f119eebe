//! The card source: the 52 cards, shuffled, dealt one by one from the back.

use crate::card::{figures, suits, Card, Figure, Suit};
use rand::rngs::ThreadRng;
use rand::seq::SliceRandom;
use std::collections::VecDeque;
use vstd::prelude::*;

verus! {

/// The 52 cards in factory order: suit by suit, each suit rank by rank.
pub open spec fn full_deck() -> Seq<Card> {
    Seq::new(52, |i: int| Card { suit: suits()[i / 13], figure: figures()[i % 13] })
}

/// No card is twice in the factory order.
pub proof fn lemma_full_deck_distinct(i: int, j: int)
    requires
        0 <= i < 52,
        0 <= j < 52,
        i != j,
    ensures
        full_deck()[i] != full_deck()[j],
{
    assert(i / 13 != j / 13 || i % 13 != j % 13);
    assert(forall|a: int, b: int| 0 <= a < 4 && 0 <= b < 4 && a != b ==> suits()[a] != suits()[b]);
    assert(forall|a: int, b: int|
        0 <= a < 13 && 0 <= b < 13 && a != b ==> figures()[a] != figures()[b]);
}

/// `rand::rngs::ThreadRng`, the handle to the random generator of the current
/// thread. Nothing is known of what it holds.
#[verifier::external_type_specification]
#[verifier::external_body]
pub struct ExThreadRng(ThreadRng);

/// `rand::thread_rng`: the handle to the generator of the current thread.
/// Nothing is claimed of it. Where the system has no entropy to seed the
/// generator with, the call does not return.
#[verifier::external_body]
fn thread_generator() -> (rng: ThreadRng) {
    rand::thread_rng()
}

/// `rand::seq::SliceRandom::shuffle` on the slice of `cards`: it swaps
/// elements in place, so the cards afterwards are the cards before in some
/// order. Which order is left open.
#[verifier::external_body]
fn shuffle_with(cards: &mut Vec<Card>, rng: &mut ThreadRng)
    ensures
        final(cards)@.to_multiset() == old(cards)@.to_multiset(),
{
    cards.shuffle(rng);
}

#[derive(Debug)]
pub struct Deck {
    cards: Vec<Card>,
    shuffled_cards: VecDeque<Card>,
}

impl View for Deck {
    type V = Seq<Card>;

    /// The cards that are left to deal. The next card dealt is the last.
    closed spec fn view(&self) -> Seq<Card> {
        self.shuffled_cards@
    }
}

impl Deck {
    /// All the cards of the deck, in the order of the last shuffle.
    pub closed spec fn cards(&self) -> Seq<Card> {
        self.cards@
    }

    /// A deck of 52 cards in factory order, with nothing yet to deal: it has
    /// to be shuffled first.
    pub fn new() -> (deck: Deck)
        ensures
            deck.cards() == full_deck(),
            deck@ == Seq::<Card>::empty(),
    {
        let all_suits = Suit::all();
        let all_figures = Figure::all();
        let mut cards: Vec<Card> = Vec::with_capacity(52);
        let mut s: usize = 0;
        while s < all_suits.len()
            invariant
                s <= 4,
                all_suits@ == suits(),
                all_figures@ == figures(),
                cards@.len() == 13 * s,
                forall|k: int| 0 <= k < cards@.len() ==> cards@[k] == full_deck()[k],
            decreases all_suits.len() - s,
        {
            let mut f: usize = 0;
            while f < all_figures.len()
                invariant
                    s < 4,
                    f <= 13,
                    all_suits@ == suits(),
                    all_figures@ == figures(),
                    cards@.len() == 13 * s + f,
                    forall|k: int| 0 <= k < cards@.len() ==> cards@[k] == full_deck()[k],
                decreases all_figures.len() - f,
            {
                cards.push(Card::new(all_suits[s], all_figures[f]));
                f = f + 1;
            }
            s = s + 1;
        }
        assert(cards@ =~= full_deck());
        Deck { cards, shuffled_cards: VecDeque::new() }
    }

    /// A deck of the given cards that deals them as they lie, the last one
    /// first, until it is shuffled.
    pub fn with_order(cards: Vec<Card>) -> (deck: Deck)
        ensures
            deck.cards() == cards@,
            deck@ == cards@,
    {
        let mut shuffled_cards: VecDeque<Card> = VecDeque::new();
        let mut i: usize = 0;
        while i < cards.len()
            invariant
                i <= cards@.len(),
                shuffled_cards@ == cards@.take(i as int),
            decreases cards.len() - i,
        {
            let card = cards[i];
            shuffled_cards.push_back(card);
            assert(cards@.take(i as int).push(card) =~= cards@.take(i + 1));
            i = i + 1;
        }
        assert(cards@.take(i as int) =~= cards@);
        Deck { cards, shuffled_cards }
    }

    /// Shuffles all the cards and makes every one of them available again.
    pub fn shuffle(&mut self)
        ensures
            final(self).cards().to_multiset() == old(self).cards().to_multiset(),
            final(self).cards().len() == old(self).cards().len(),
            final(self)@ == final(self).cards(),
    {
        let mut rng = thread_generator();
        shuffle_with(&mut self.cards, &mut rng);
        proof {
            self.cards@.to_multiset_ensures();
            old(self).cards@.to_multiset_ensures();
        }
        if self.shuffled_cards.len() != 0 {
            self.shuffled_cards = VecDeque::new();
        }
        let mut i: usize = 0;
        while i < self.cards.len()
            invariant
                i <= self.cards@.len(),
                self.shuffled_cards@ == self.cards@.take(i as int),
                self.cards@.to_multiset() == old(self).cards@.to_multiset(),
                self.cards@.len() == old(self).cards@.len(),
            decreases self.cards.len() - i,
        {
            let card = self.cards[i];
            self.shuffled_cards.push_back(card);
            assert(self.cards@.take(i as int).push(card) =~= self.cards@.take(i + 1));
            i = i + 1;
        }
        assert(self.cards@.take(i as int) =~= self.cards@);
    }

    /// How many cards the deck holds in all, dealt or not.
    pub fn size(&self) -> (n: usize)
        ensures
            n == self.cards().len(),
    {
        self.cards.len()
    }

    /// How many cards are left to deal.
    pub fn remaining(&self) -> (n: usize)
        ensures
            n == self@.len(),
    {
        self.shuffled_cards.len()
    }

    /// Deals the last of the cards that are left.
    pub fn deal_card(&mut self) -> (card: Card)
        requires
            old(self)@.len() > 0,
        ensures
            card == old(self)@.last(),
            final(self)@ == old(self)@.drop_last(),
            final(self).cards() == old(self).cards(),
    {
        let card = self.shuffled_cards.pop_back();
        assert(self.shuffled_cards@ =~= old(self).shuffled_cards@.drop_last());
        card.unwrap()
    }
}

/// A shuffle neither loses nor invents a card: a fresh deck, once shuffled,
/// deals out the 52 cards of the factory order, each as often as it is there.
pub proof fn lemma_shuffled_deck_is_full(before: Deck, after: Deck)
    requires
        before.cards() == full_deck(),
        after.cards().to_multiset() == before.cards().to_multiset(),
        after@ == after.cards(),
    ensures
        after@.len() == 52,
        after@.to_multiset() == full_deck().to_multiset(),
{
    after@.to_multiset_ensures();
    full_deck().to_multiset_ensures();
}

} // verus!
