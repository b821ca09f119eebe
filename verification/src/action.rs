//! The five actions, when each may be taken, and how an input names one.

use crate::error::GameError;
use vstd::prelude::*;

verus! {

#[derive(Debug, Clone, Copy, PartialEq, Eq, Structural)]
pub enum Action {
    Hit,
    Stand,
    DoubleDown,
    Split,
    Surrender,
}

/// The five actions, in their declared order.
pub open spec fn actions() -> Seq<Action> {
    seq![Action::Hit, Action::Stand, Action::DoubleDown, Action::Split, Action::Surrender]
}

/// The action that the input `token` names, if it names one: a single letter,
/// in either case.
pub open spec fn action_of_token(token: Seq<char>) -> Option<Action> {
    if token.len() != 1 {
        None
    } else if token[0] == 's' || token[0] == 'S' {
        Some(Action::Stand)
    } else if token[0] == 'h' || token[0] == 'H' {
        Some(Action::Hit)
    } else if token[0] == 'd' || token[0] == 'D' {
        Some(Action::DoubleDown)
    } else if token[0] == 'x' || token[0] == 'X' {
        Some(Action::Split)
    } else if token[0] == 'q' || token[0] == 'Q' {
        Some(Action::Surrender)
    } else {
        None
    }
}

/// The labels of `actions`, one to a line.
pub open spec fn menu_text(actions: Seq<Action>) -> Seq<char>
    decreases actions.len(),
{
    if actions.len() == 0 {
        Seq::<char>::empty()
    } else if actions.len() == 1 {
        actions[0].spec_label()
    } else {
        menu_text(actions.drop_last()) + "\n"@ + actions.last().spec_label()
    }
}

/// The actions open to a hand, in declared order.
pub open spec fn menu_of(
    hand_size: int,
    hands_count: int,
    pot: int,
    bet: int,
    cards_are_equal: bool,
) -> Seq<Action> {
    actions().filter(
        |a: Action| a.spec_can_execute(hand_size, hands_count, pot, bet, cards_are_equal),
    )
}

impl Action {
    /// Whether a hand of `hand_size` cards with the bet `bet`, one of
    /// `hands_count` hands of a participant who owns `pot`, may take this
    /// action. Doubling and splitting ask that the bankroll matches the bet on
    /// every hand the participant holds.
    pub open spec fn spec_can_execute(
        self,
        hand_size: int,
        hands_count: int,
        pot: int,
        bet: int,
        cards_are_equal: bool,
    ) -> bool {
        match self {
            Action::DoubleDown => hand_size == 2 && pot >= bet * hands_count,
            Action::Split => hand_size == 2 && cards_are_equal && pot >= bet * hands_count,
            Action::Surrender => hands_count == 1 && hand_size == 2,
            Action::Hit | Action::Stand => true,
        }
    }

    /// How an action is written on the menu: the key that chooses it, in
    /// brackets, and its name.
    pub open spec fn spec_label(self) -> Seq<char> {
        match self {
            Action::Hit => "(H) Hit"@,
            Action::Stand => "(S) Stand"@,
            Action::DoubleDown => "(D) Double Down"@,
            Action::Split => "(X) Split"@,
            Action::Surrender => "(Q) Surrender"@,
        }
    }

    /// How many cards the action draws.
    pub open spec fn spec_draws(self) -> int {
        match self {
            Action::Hit | Action::DoubleDown => 1,
            Action::Split => 2,
            Action::Stand | Action::Surrender => 0,
        }
    }

    /// Every action once, in declared order.
    pub fn all() -> (out: Vec<Action>)
        ensures
            out@ == actions(),
    {
        let out = vec![
            Action::Hit,
            Action::Stand,
            Action::DoubleDown,
            Action::Split,
            Action::Surrender,
        ];
        assert(out@ =~= actions());
        out
    }

    pub fn can_execute(
        &self,
        hand_size: usize,
        hands_count: usize,
        pot: u32,
        bet: u32,
        cards_are_equal: bool,
    ) -> (legal: bool)
        ensures
            legal == self.spec_can_execute(
                hand_size as int,
                hands_count as int,
                pot as int,
                bet as int,
                cards_are_equal,
            ),
    {
        assert((bet as int) * (hands_count as int) <= 0x1_0000_0000 * 0x1_0000_0000_0000_0000)
            by (nonlinear_arith)
            requires
                0 <= bet < 0x1_0000_0000,
                0 <= hands_count < 0x1_0000_0000_0000_0000,
        ;
        let stake: u128 = (bet as u128) * (hands_count as u128);
        let covered = pot as u128 >= stake;
        match self {
            Action::DoubleDown => hand_size == 2 && covered,
            Action::Split => hand_size == 2 && cards_are_equal && covered,
            Action::Surrender => hands_count == 1 && hand_size == 2,
            Action::Hit | Action::Stand => true,
        }
    }

    /// How many cards the action draws.
    pub fn draws(&self) -> (n: usize)
        ensures
            n == self.spec_draws(),
    {
        match self {
            Action::Hit | Action::DoubleDown => 1,
            Action::Split => 2,
            Action::Stand | Action::Surrender => 0,
        }
    }

    /// The menu: the actions that `can_execute` allows, in declared order.
    pub fn legal_actions(
        hand_size: usize,
        hands_count: usize,
        pot: u32,
        bet: u32,
        cards_are_equal: bool,
    ) -> (menu: Vec<Action>)
        ensures
            menu@ == menu_of(
                hand_size as int,
                hands_count as int,
                pot as int,
                bet as int,
                cards_are_equal,
            ),
    {
        let every = Action::all();
        let mut menu: Vec<Action> = Vec::new();
        let ghost keep = |a: Action|
            a.spec_can_execute(
                hand_size as int,
                hands_count as int,
                pot as int,
                bet as int,
                cards_are_equal,
            );
        let mut i: usize = 0;
        assert(every@.take(0).filter(keep) =~= Seq::<Action>::empty());
        while i < every.len()
            invariant
                i <= every@.len(),
                menu@ == every@.take(i as int).filter(keep),
                keep == |a: Action|
                    a.spec_can_execute(
                        hand_size as int,
                        hands_count as int,
                        pot as int,
                        bet as int,
                        cards_are_equal,
                    ),
            decreases every.len() - i,
        {
            let action = every[i];
            proof {
                assert(every@.take(i + 1).drop_last() =~= every@.take(i as int));
                reveal(Seq::filter);
            }
            if action.can_execute(hand_size, hands_count, pot, bet, cards_are_equal) {
                menu.push(action);
            }
            i = i + 1;
        }
        assert(every@.take(i as int) =~= every@);
        menu
    }

    /// How an action is written on the menu.
    pub fn label(&self) -> (text: &'static str)
        ensures
            text@ == self.spec_label(),
    {
        match self {
            Action::Hit => "(H) Hit",
            Action::Stand => "(S) Stand",
            Action::DoubleDown => "(D) Double Down",
            Action::Split => "(X) Split",
            Action::Surrender => "(Q) Surrender",
        }
    }

    /// The menu as it is shown: the labels of `actions`, one to a line.
    pub fn actions_list(actions: &Vec<Action>) -> (text: String)
        ensures
            text@ == menu_text(actions@),
    {
        let mut text = String::from_str("");
        let mut i: usize = 0;
        proof {
            reveal_strlit("");
            assert(actions@.take(0) =~= Seq::<Action>::empty());
            assert(text@ =~= menu_text(actions@.take(0)));
        }
        while i < actions.len()
            invariant
                i <= actions@.len(),
                text@ == menu_text(actions@.take(i as int)),
            decreases actions.len() - i,
        {
            let ghost so_far = actions@.take(i as int);
            let ghost next = actions@.take(i + 1);
            assert(next.drop_last() =~= so_far);
            assert(next.last() == actions@[i as int]);
            if i > 0 {
                text.append("\n");
            }
            text.append(actions[i].label());
            proof {
                if i == 0 {
                    assert(so_far.len() == 0);
                }
                assert(text@ =~= menu_text(next));
            }
            i = i + 1;
        }
        assert(actions@.take(i as int) =~= actions@);
        text
    }

    /// Reads an action from the input `token`.
    pub fn from_token(token: &str) -> (r: Result<Action, GameError>)
        ensures
            r == match action_of_token(token@) {
                Some(action) => Ok::<Action, GameError>(action),
                None => Err::<Action, GameError>(GameError::InvalidActionToken),
            },
    {
        if token.unicode_len() != 1 {
            return Err(GameError::InvalidActionToken);
        }
        let c = token.get_char(0);
        if c == 's' || c == 'S' {
            Ok(Action::Stand)
        } else if c == 'h' || c == 'H' {
            Ok(Action::Hit)
        } else if c == 'd' || c == 'D' {
            Ok(Action::DoubleDown)
        } else if c == 'x' || c == 'X' {
            Ok(Action::Split)
        } else if c == 'q' || c == 'Q' {
            Ok(Action::Surrender)
        } else {
            Err(GameError::InvalidActionToken)
        }
    }
}

/// Parsing a string as an action reads it as `from_token` does.
impl std::str::FromStr for Action {
    type Err = GameError;

    fn from_str(s: &str) -> (r: Result<Self, Self::Err>)
        ensures
            r == match action_of_token(s@) {
                Some(action) => Ok::<Action, GameError>(action),
                None => Err::<Action, GameError>(GameError::InvalidActionToken),
            },
    {
        Action::from_token(s)
    }
}

} // verus!
