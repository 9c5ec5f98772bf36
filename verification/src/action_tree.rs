//! The betting tree: player flags, actions, streets, and the size of its flop-only part.
use vstd::prelude::*;
use crate::card::Card;

verus! {

/// Player flag bits of a game-tree node.
pub const PLAYER_OOP: u8 = 0;
pub const PLAYER_IP: u8 = 1;
pub const PLAYER_CHANCE: u8 = 2;
pub const PLAYER_MASK: u8 = 3;
pub const PLAYER_CHANCE_FLAG: u8 = 4;
pub const PLAYER_TERMINAL_FLAG: u8 = 8;
pub const PLAYER_FOLD_FLAG: u8 = 24;

/// An action taken at a node of the game tree.
#[derive(Clone, Copy, Debug, PartialEq, Eq)]
pub enum Action {
    NoAction,
    Fold,
    Check,
    Call,
    Bet(i32),
    Raise(i32),
    AllIn(i32),
    Chance(Card),
}

/// Street of the board.
#[derive(Clone, Copy, Debug, PartialEq, Eq)]
pub enum BoardState {
    Flop,
    Turn,
    River,
}

impl BoardState {
    /// Position of the street: flop 0, turn 1, river 2.
    pub open spec fn spec_index(self) -> int {
        match self {
            BoardState::Flop => 0,
            BoardState::Turn => 1,
            BoardState::River => 2,
        }
    }

    /// Position of the street: flop 0, turn 1, river 2.
    pub fn index(&self) -> (r: u8)
        ensures
            r == self.spec_index(),
    {
        match self {
            BoardState::Flop => 0,
            BoardState::Turn => 1,
            BoardState::River => 2,
        }
    }
}

/// A node of the betting tree.
pub struct ActionTreeNode {
    /// Player to act, with the chance and terminal flags.
    pub player: u8,
    /// Turn card (or [`crate::card::NOT_DEALT`]).
    pub turn: Card,
    /// River card (or [`crate::card::NOT_DEALT`]).
    pub river: Card,
    /// Amount each player has put in the pot beyond the starting pot.
    pub amount: i32,
    /// Actions available at this node, one per child.
    pub actions: Vec<Action>,
    /// Child nodes.
    pub children: Vec<ActionTreeNode>,
}

/// The node ends the flop-only tree: terminal or chance (boundary) node.
pub open spec fn ends_flop_tree(player: u8) -> bool {
    player & PLAYER_TERMINAL_FLAG != 0 || player & PLAYER_CHANCE_FLAG != 0
}

/// Number of nodes of the flop-only tree rooted at `node`: terminal and chance nodes
/// are leaves.
pub open spec fn flop_tree_size(node: ActionTreeNode) -> nat
    decreases node, 1nat,
{
    if ends_flop_tree(node.player) {
        1
    } else {
        1 + flop_forest_size(node.children@, node.children@.len())
    }
}

/// Number of nodes of the flop-only trees rooted at the first `n` of `children`.
pub open spec fn flop_forest_size(children: Seq<ActionTreeNode>, n: nat) -> nat
    decreases children, n,
{
    if n == 0 || n > children.len() {
        0
    } else {
        flop_forest_size(children, (n - 1) as nat) + flop_tree_size(children[n - 1])
    }
}

proof fn lemma_forest_monotone(children: Seq<ActionTreeNode>, a: nat, b: nat)
    requires
        a <= b <= children.len(),
    ensures
        flop_forest_size(children, a) <= flop_forest_size(children, b),
    decreases b - a,
{
    if a < b {
        lemma_forest_monotone(children, a, (b - 1) as nat);
    }
}

/// Number of nodes of the flop-only tree: the node itself plus, unless it is a terminal
/// or chance node, the nodes below its children.
pub fn count_flop_nodes(node: &ActionTreeNode) -> (r: usize)
    requires
        flop_tree_size(*node) <= usize::MAX,
    ensures
        r == flop_tree_size(*node),
    decreases *node,
{
    let mut count: usize = 1;
    if node.player & PLAYER_TERMINAL_FLAG != 0 || node.player & PLAYER_CHANCE_FLAG != 0 {
        return count;
    }
    let mut i: usize = 0;
    while i < node.children.len()
        invariant
            i <= node.children.len(),
            !ends_flop_tree(node.player),
            flop_tree_size(*node) <= usize::MAX,
            count == 1 + flop_forest_size(node.children@, i as nat),
        decreases node.children.len() - i,
    {
        proof {
            lemma_forest_monotone(node.children@, (i + 1) as nat, node.children@.len());
            assert(flop_forest_size(node.children@, (i + 1) as nat) == flop_forest_size(
                node.children@,
                i as nat,
            ) + flop_tree_size(node.children@[i as int]));
        }
        count += count_flop_nodes(&node.children[i]);
        i += 1;
    }
    count
}

} // verus!
