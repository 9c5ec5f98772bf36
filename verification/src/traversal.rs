//! Helpers of the sampled game-tree traversal of the deep solver.
use vstd::prelude::*;
use crate::action_tree::Action;
use crate::encoder::ActionType;

verus! {

/// Two hands share a card.
pub fn hands_conflict(hand1: (u8, u8), hand2: (u8, u8)) -> (r: bool)
    ensures
        r == (hand1.0 == hand2.0 || hand1.0 == hand2.1 || hand1.1 == hand2.0 || hand1.1
            == hand2.1),
{
    hand1.0 == hand2.0 || hand1.0 == hand2.1 || hand1.1 == hand2.0 || hand1.1 == hand2.1
}

/// Encoded type and amount of the action that leads to a child node, given the child's
/// previous action and bet amount: calls carry the child's bet amount, bets and raises
/// their own amount, all-ins count as raises, and chance or empty actions (which do not
/// occur at decision nodes) read as a check.
pub fn get_action_info(prev_action: Action, child_bet_amount: i32) -> (r: (ActionType, i32))
    ensures
        r == match prev_action {
            Action::Fold => (ActionType::Fold, 0i32),
            Action::Check => (ActionType::Check, 0i32),
            Action::Call => (ActionType::Call, child_bet_amount),
            Action::Bet(amount) => (ActionType::Bet, amount),
            Action::Raise(amount) => (ActionType::Raise, amount),
            Action::AllIn(amount) => (ActionType::Raise, amount),
            Action::Chance(_) | Action::NoAction => (ActionType::Check, 0i32),
        },
{
    match prev_action {
        Action::Fold => (ActionType::Fold, 0),
        Action::Check => (ActionType::Check, 0),
        Action::Call => (ActionType::Call, child_bet_amount),
        Action::Bet(amount) => (ActionType::Bet, amount),
        Action::Raise(amount) => (ActionType::Raise, amount),
        Action::AllIn(amount) => (ActionType::Raise, amount),
        Action::Chance(_) | Action::NoAction => (ActionType::Check, 0),
    }
}

/// Upper bound on the number of actions at a node: fold, check and call, a bet and a
/// raise per configured bet-size entry (at least one), and all-in.
pub fn estimate_max_actions(num_bet_sizes: usize) -> (r: usize)
    requires
        num_bet_sizes <= (usize::MAX - 4) / 2,
    ensures
        r == 3 + 2 * (if num_bet_sizes >= 1 { num_bet_sizes } else { 1 }) + 1,
{
    let n = if num_bet_sizes >= 1 { num_bet_sizes } else { 1 };
    3 + n * 2 + 1
}

} // verus!
