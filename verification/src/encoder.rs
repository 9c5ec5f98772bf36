//! Dimensions of the information-set encoding and the action types it records.
use vstd::prelude::*;
use crate::action_tree::Action;

verus! {

/// Dimension of the encoded information set without the action history: board one-hots
/// (5 * 52), hole-card one-hots (2 * 52), pot ratio, stack ratio and street one-hot (3).
pub const BASE_ENCODING_DIM: usize = 369;

/// Maximum number of actions encoded in the history.
pub const MAX_ACTION_HISTORY: usize = 10;

/// Dimension per encoded action (fold, check, call, bet/raise, size).
pub const ACTION_ENCODING_DIM: usize = 5;

/// Total encoding dimension.
pub const ENCODING_DIM: usize = 419;

/// Action types for encoding.
#[derive(Clone, Copy, Debug, PartialEq, Eq)]
pub enum ActionType {
    Fold,
    Check,
    Call,
    Bet,
    Raise,
}

impl ActionType {
    /// Converts a game action; all-ins count as raises, chance and empty actions have no
    /// encoding.
    pub fn from_action(action: Action) -> (r: Option<Self>)
        ensures
            r == match action {
                Action::Fold => Some(ActionType::Fold),
                Action::Check => Some(ActionType::Check),
                Action::Call => Some(ActionType::Call),
                Action::Bet(_) => Some(ActionType::Bet),
                Action::Raise(_) => Some(ActionType::Raise),
                Action::AllIn(_) => Some(ActionType::Raise),
                Action::Chance(_) | Action::NoAction => None,
            },
    {
        match action {
            Action::Fold => Some(ActionType::Fold),
            Action::Check => Some(ActionType::Check),
            Action::Call => Some(ActionType::Call),
            Action::Bet(_) => Some(ActionType::Bet),
            Action::Raise(_) => Some(ActionType::Raise),
            Action::AllIn(_) => Some(ActionType::Raise),
            Action::Chance(_) | Action::NoAction => None,
        }
    }
}

/// One-hot slot of `card` in the block of 52 starting at `base`; a card that is not
/// dealt (not below 52) sets nothing.
pub open spec fn card_slot(base: int, card: u8) -> Seq<usize> {
    if card < 52 {
        seq![(base + card) as usize]
    } else {
        Seq::empty()
    }
}

/// Slots set to one by the board: flop, turn and river one-hots, blocks of 52 in that
/// order.
pub open spec fn board_slots_spec(flop: [u8; 3], turn: u8, river: u8) -> Seq<usize> {
    card_slot(0, flop[0]) + card_slot(52, flop[1]) + card_slot(104, flop[2]) + card_slot(156, turn)
        + card_slot(208, river)
}

/// Slots set to one by the hole cards: the lower card's one-hot, then the higher's.
pub open spec fn hole_card_slots_spec(card1: u8, card2: u8) -> Seq<usize> {
    if card1 <= card2 {
        card_slot(0, card1) + card_slot(52, card2)
    } else {
        card_slot(0, card2) + card_slot(52, card1)
    }
}

/// Slot within an action's block that marks its type: fold, check, call, bet or raise.
pub open spec fn action_type_slot(t: ActionType) -> int {
    match t {
        ActionType::Fold => 0,
        ActionType::Check => 1,
        ActionType::Call => 2,
        ActionType::Bet | ActionType::Raise => 3,
    }
}

/// Number of actions of the history that are encoded: at most [`MAX_ACTION_HISTORY`].
pub open spec fn encoded_actions(actions: Seq<(ActionType, i32)>) -> int {
    if actions.len() < MAX_ACTION_HISTORY {
        actions.len() as int
    } else {
        MAX_ACTION_HISTORY as int
    }
}

/// Type slots of the first `n` actions, each action taking a block of
/// [`ACTION_ENCODING_DIM`].
pub open spec fn action_type_slots_spec(actions: Seq<(ActionType, i32)>, n: int) -> Seq<usize>
    decreases n,
{
    if n <= 0 {
        Seq::empty()
    } else {
        action_type_slots_spec(actions, n - 1).push(
            ((n - 1) * ACTION_ENCODING_DIM + action_type_slot(actions[n - 1].0)) as usize,
        )
    }
}

/// Bet-size slots of the first `n` actions: for each bet or raise, the last slot of its
/// block, with the amount.
pub open spec fn bet_size_slots_spec(actions: Seq<(ActionType, i32)>, n: int) -> Seq<(usize, i32)>
    decreases n,
{
    if n <= 0 {
        Seq::empty()
    } else {
        let prev = bet_size_slots_spec(actions, n - 1);
        let (t, amount) = actions[n - 1];
        if t == ActionType::Bet || t == ActionType::Raise {
            prev.push((((n - 1) * ACTION_ENCODING_DIM + 4) as usize, amount))
        } else {
            prev
        }
    }
}

fn push_card_slot(out: &mut Vec<usize>, base: usize, card: u8)
    requires
        base <= 208,
    ensures
        final(out)@ == old(out)@ + card_slot(base as int, card),
{
    if card < 52 {
        out.push(base + card as usize);
    } else {
        assert(old(out)@ + Seq::<usize>::empty() =~= old(out)@);
    }
}

/// Slots of the board block set to one (see [`board_slots_spec`]); all below 260.
pub fn board_slots(flop: [u8; 3], turn: u8, river: u8) -> (r: Vec<usize>)
    ensures
        r@ == board_slots_spec(flop, turn, river),
        forall|i: int| 0 <= i < r@.len() ==> r@[i] < 260,
{
    let mut out: Vec<usize> = Vec::new();
    push_card_slot(&mut out, 0, flop[0]);
    push_card_slot(&mut out, 52, flop[1]);
    push_card_slot(&mut out, 104, flop[2]);
    push_card_slot(&mut out, 156, turn);
    push_card_slot(&mut out, 208, river);
    out
}

/// Slots of the hole-card block set to one (see [`hole_card_slots_spec`]); all below
/// 104.
pub fn hole_card_slots(card1: u8, card2: u8) -> (r: Vec<usize>)
    ensures
        r@ == hole_card_slots_spec(card1, card2),
        forall|i: int| 0 <= i < r@.len() ==> r@[i] < 104,
{
    let (c1, c2) = if card1 <= card2 { (card1, card2) } else { (card2, card1) };
    let mut out: Vec<usize> = Vec::new();
    push_card_slot(&mut out, 0, c1);
    push_card_slot(&mut out, 52, c2);
    out
}

/// Type slots of the encoded actions (see [`action_type_slots_spec`]); all below the
/// history's size.
pub fn action_type_slots(actions: &[(ActionType, i32)]) -> (r: Vec<usize>)
    ensures
        r@ == action_type_slots_spec(actions@, encoded_actions(actions@)),
        forall|i: int| 0 <= i < r@.len() ==> r@[i] < MAX_ACTION_HISTORY * ACTION_ENCODING_DIM,
{
    let mut out: Vec<usize> = Vec::new();
    let n = if actions.len() < MAX_ACTION_HISTORY { actions.len() } else { MAX_ACTION_HISTORY };
    let mut i: usize = 0;
    while i < n
        invariant
            n == encoded_actions(actions@),
            n <= actions@.len(),
            n <= MAX_ACTION_HISTORY,
            i <= n,
            out@ == action_type_slots_spec(actions@, i as int),
            forall|j: int| 0 <= j < out@.len() ==> out@[j] < MAX_ACTION_HISTORY * ACTION_ENCODING_DIM,
        decreases n - i,
    {
        let slot = match actions[i].0 {
            ActionType::Fold => 0,
            ActionType::Check => 1,
            ActionType::Call => 2,
            ActionType::Bet | ActionType::Raise => 3,
        };
        out.push(i * ACTION_ENCODING_DIM + slot);
        i = i + 1;
    }
    out
}

/// Bet-size slots of the encoded actions (see [`bet_size_slots_spec`]); all below the
/// history's size.
pub fn bet_size_slots(actions: &[(ActionType, i32)]) -> (r: Vec<(usize, i32)>)
    ensures
        r@ == bet_size_slots_spec(actions@, encoded_actions(actions@)),
        forall|i: int| 0 <= i < r@.len() ==> r@[i].0 < MAX_ACTION_HISTORY * ACTION_ENCODING_DIM,
{
    let mut out: Vec<(usize, i32)> = Vec::new();
    let n = if actions.len() < MAX_ACTION_HISTORY { actions.len() } else { MAX_ACTION_HISTORY };
    let mut i: usize = 0;
    while i < n
        invariant
            n == encoded_actions(actions@),
            n <= actions@.len(),
            n <= MAX_ACTION_HISTORY,
            i <= n,
            out@ == bet_size_slots_spec(actions@, i as int),
            forall|j: int| 0 <= j < out@.len() ==> out@[j].0 < MAX_ACTION_HISTORY * ACTION_ENCODING_DIM,
        decreases n - i,
    {
        let (t, amount) = actions[i];
        match t {
            ActionType::Bet | ActionType::Raise => {
                out.push((i * ACTION_ENCODING_DIM + 4, amount));
            },
            _ => {},
        }
        i = i + 1;
    }
    out
}
} // verus!
