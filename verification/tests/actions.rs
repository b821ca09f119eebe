use blackjack::action::Action;
use blackjack::error::GameError;
use std::str::FromStr;

#[test]
fn from_str_conversion() {
    let cases = [
        ("h", Action::Hit),
        ("H", Action::Hit),
        ("s", Action::Stand),
        ("S", Action::Stand),
        ("d", Action::DoubleDown),
        ("D", Action::DoubleDown),
        ("x", Action::Split),
        ("X", Action::Split),
        ("q", Action::Surrender),
        ("Q", Action::Surrender),
    ];
    for (input, output) in cases {
        assert_eq!(Action::from_str(input).unwrap(), output);
        assert_eq!(Action::from_token(input), Ok(output));
    }
}

#[test]
fn an_unknown_token_is_refused() {
    for input in ["", "hit", "z", " h", "h ", "1", "\u{e9}"] {
        assert_eq!(Action::from_token(input), Err(GameError::InvalidActionToken));
        assert_eq!(Action::from_str(input), Err(GameError::InvalidActionToken));
    }
}

#[test]
fn hit_and_stand_are_always_legal() {
    for action in [Action::Hit, Action::Stand] {
        assert!(action.can_execute(0, 0, 0, 0, false));
        assert!(action.can_execute(7, 3, 0, u32::MAX, false));
    }
}

#[test]
fn double_down_needs_two_cards_and_a_bankroll_for_every_hand() {
    assert!(Action::DoubleDown.can_execute(2, 1, 20, 10, false));
    assert!(Action::DoubleDown.can_execute(2, 2, 20, 10, false));
    assert!(!Action::DoubleDown.can_execute(2, 2, 19, 10, false));
    assert!(!Action::DoubleDown.can_execute(2, 3, 20, 10, false));
    assert!(!Action::DoubleDown.can_execute(3, 1, 20, 10, false));
    assert!(!Action::DoubleDown.can_execute(1, 1, 20, 10, false));
}

#[test]
fn the_stake_is_compared_without_overflow() {
    assert!(!Action::DoubleDown.can_execute(2, usize::MAX, u32::MAX, u32::MAX, false));
    assert!(Action::DoubleDown.can_execute(2, 1, u32::MAX, u32::MAX, false));
    assert!(Action::DoubleDown.can_execute(2, usize::MAX, 0, 0, false));
}

#[test]
fn split_needs_a_pair_as_well() {
    assert!(Action::Split.can_execute(2, 1, 20, 10, true));
    assert!(!Action::Split.can_execute(2, 1, 20, 10, false));
    assert!(!Action::Split.can_execute(3, 1, 20, 10, true));
    assert!(!Action::Split.can_execute(2, 3, 20, 10, true));
    assert!(Action::Split.can_execute(2, 2, 20, 10, true));
}

#[test]
fn surrender_needs_the_only_hand_with_two_cards() {
    assert!(Action::Surrender.can_execute(2, 1, 0, 10, false));
    assert!(!Action::Surrender.can_execute(2, 2, 100, 10, false));
    assert!(!Action::Surrender.can_execute(3, 1, 100, 10, false));
}

#[test]
fn the_menu_lists_the_legal_actions_in_declared_order() {
    assert_eq!(
        Action::legal_actions(2, 1, 20, 10, true),
        vec![Action::Hit, Action::Stand, Action::DoubleDown, Action::Split, Action::Surrender]
    );
    assert_eq!(
        Action::legal_actions(2, 1, 20, 10, false),
        vec![Action::Hit, Action::Stand, Action::DoubleDown, Action::Surrender]
    );
    assert_eq!(
        Action::legal_actions(2, 1, 5, 10, true),
        vec![Action::Hit, Action::Stand, Action::Surrender]
    );
    assert_eq!(Action::legal_actions(3, 2, 100, 10, true), vec![Action::Hit, Action::Stand]);
}

#[test]
fn every_action_once() {
    assert_eq!(
        Action::all(),
        vec![Action::Hit, Action::Stand, Action::DoubleDown, Action::Split, Action::Surrender]
    );
}

#[test]
fn each_action_draws_what_it_needs() {
    assert_eq!(Action::Hit.draws(), 1);
    assert_eq!(Action::DoubleDown.draws(), 1);
    assert_eq!(Action::Split.draws(), 2);
    assert_eq!(Action::Stand.draws(), 0);
    assert_eq!(Action::Surrender.draws(), 0);
}

#[test]
fn the_menu_is_written_one_action_to_a_line() {
    assert_eq!(Action::Hit.label(), "(H) Hit");
    assert_eq!(Action::Stand.label(), "(S) Stand");
    assert_eq!(Action::DoubleDown.label(), "(D) Double Down");
    assert_eq!(Action::Split.label(), "(X) Split");
    assert_eq!(Action::Surrender.label(), "(Q) Surrender");
    assert_eq!(Action::actions_list(&vec![]), "");
    assert_eq!(Action::actions_list(&vec![Action::Hit]), "(H) Hit");
    assert_eq!(
        Action::actions_list(&vec![Action::Hit, Action::Stand, Action::Surrender]),
        "(H) Hit\n(S) Stand\n(Q) Surrender"
    );
}
