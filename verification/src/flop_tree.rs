//! Arena layout of the flop-only game tree: the betting tree cut at the flop
//! boundary, every node's children stored next to each other.
use vstd::prelude::*;
use crate::card::Card;
use crate::action_tree::{
    ActionTreeNode, PLAYER_CHANCE_FLAG, PLAYER_TERMINAL_FLAG, count_flop_nodes, ends_flop_tree,
    flop_forest_size, flop_tree_size,
};

verus! {

/// A node of the flop-only arena.
#[derive(Clone, Copy, Debug, PartialEq, Eq, Structural)]
pub struct FlopTreeNode {
    /// Player to act, with the chance and terminal flags.
    pub player: u8,
    /// Amount each player has put in the pot beyond the starting pot.
    pub amount: i32,
    /// The node is a flop boundary, where turn values come from outside the tree.
    pub is_boundary: bool,
    /// Distance from this node to its first child in the arena.
    pub children_offset: u32,
    /// Number of children (one per action).
    pub num_children: u16,
}

/// The node is terminal (fold or showdown).
pub open spec fn is_terminal_player(player: u8) -> bool {
    player & PLAYER_TERMINAL_FLAG != 0
}

/// Every decision node of the flop-only tree has at most `u16::MAX` children.
pub open spec fn fan_out_fits(node: ActionTreeNode) -> bool
    decreases node,
{
    ends_flop_tree(node.player) || (node.children@.len() <= u16::MAX && forall|j: int|
        0 <= j < node.children@.len() ==> fan_out_fits(#[trigger] node.children@[j]))
}

/// Start of the block of descendants of child `j` of a node whose `k` children sit
/// from `lo` on: children's descendants follow the children, child after child.
pub open spec fn child_block(children: Seq<ActionTreeNode>, lo: int, j: int) -> int {
    lo + children.len() + flop_forest_size(children, j as nat) - j
}

/// `arena[i]` describes `node`, and the descendants of `node` lie in
/// `lo .. lo + flop_tree_size(node) - 1`: its children at `lo ..`, one after the other,
/// and then the descendants of each child in turn.
pub open spec fn encodes(arena: Seq<FlopTreeNode>, i: int, node: ActionTreeNode, lo: int) -> bool
    decreases node,
{
    &&& 0 <= i < arena.len()
    &&& arena[i].player == node.player
    &&& arena[i].amount == node.amount
    &&& if ends_flop_tree(node.player) {
        &&& arena[i].is_boundary == !is_terminal_player(node.player)
        &&& arena[i].num_children == 0
    } else {
        &&& !arena[i].is_boundary
        &&& arena[i].num_children == node.children@.len()
        &&& i + arena[i].children_offset == lo
        &&& forall|j: int|
            0 <= j < node.children@.len() ==> encodes(
                arena,
                lo + j,
                #[trigger] node.children@[j],
                child_block(node.children@, lo, j),
            )
    }
}

proof fn lemma_forest_step(children: Seq<ActionTreeNode>, j: nat)
    requires
        j < children.len(),
    ensures
        flop_forest_size(children, j + 1) == flop_forest_size(children, j) + flop_tree_size(
            children[j as int],
        ),
        flop_tree_size(children[j as int]) >= 1,
{
}

proof fn lemma_forest_mono(children: Seq<ActionTreeNode>, a: nat, b: nat)
    requires
        a <= b <= children.len(),
    ensures
        flop_forest_size(children, a) + (b - a) <= flop_forest_size(children, b),
    decreases b - a,
{
    if a < b {
        lemma_forest_mono(children, a, (b - 1) as nat);
        lemma_forest_step(children, (b - 1) as nat);
    }
}

/// An arena that agrees with another on the slots a subtree occupies encodes it too.
proof fn lemma_encodes_frame(
    a: Seq<FlopTreeNode>,
    b: Seq<FlopTreeNode>,
    i: int,
    node: ActionTreeNode,
    lo: int,
)
    requires
        encodes(a, i, node, lo),
        a.len() == b.len(),
        a[i] == b[i],
        forall|p: int| lo <= p < lo + flop_tree_size(node) - 1 ==> #[trigger] b[p] == a[p],
    ensures
        encodes(b, i, node, lo),
    decreases node,
{
    if !ends_flop_tree(node.player) {
        let ch = node.children@;
        let k = ch.len();
        assert forall|j: int| 0 <= j < k implies encodes(
            b,
            lo + j,
            #[trigger] ch[j],
            child_block(ch, lo, j),
        ) by {
            lemma_forest_step(ch, j as nat);
            lemma_forest_mono(ch, 0, j as nat);
            lemma_forest_mono(ch, (j + 1) as nat, k);
            let s = child_block(ch, lo, j);
            assert forall|p: int| s <= p < s + flop_tree_size(ch[j]) - 1 implies #[trigger] b[p]
                == a[p] by {}
            lemma_encodes_frame(a, b, lo + j, ch[j], s);
        }
    }
}

/// Writes the subtree of `node` into the arena: `node` at `node_index`, its children
/// from `next_index` on and their descendants after them; `next_index` ends past them.
fn build_subtree(
    arena: &mut Vec<FlopTreeNode>,
    node_index: usize,
    node: &ActionTreeNode,
    next_index: &mut usize,
)
    requires
        node_index < *old(next_index),
        *old(next_index) + flop_tree_size(*node) - 1 <= old(arena)@.len(),
        old(arena)@.len() <= u32::MAX,
        fan_out_fits(*node),
    ensures
        *final(next_index) == *old(next_index) + flop_tree_size(*node) - 1,
        final(arena)@.len() == old(arena)@.len(),
        encodes(final(arena)@, node_index as int, *node, *old(next_index) as int),
        forall|p: int|
            0 <= p < old(arena)@.len() && p != node_index && !(*old(next_index) <= p
                < *final(next_index)) ==> #[trigger] final(arena)@[p] == old(arena)@[p],
    decreases *node,
{
    let mut entry = FlopTreeNode {
        player: node.player,
        amount: node.amount,
        is_boundary: false,
        children_offset: 0,
        num_children: 0,
    };
    if node.player & PLAYER_TERMINAL_FLAG != 0 {
        arena.set(node_index, entry);
        return;
    }
    if node.player & PLAYER_CHANCE_FLAG != 0 {
        entry.is_boundary = true;
        arena.set(node_index, entry);
        return;
    }
    let ghost ch = node.children@;
    let k = node.children.len();
    let lo = *next_index;
    proof {
        lemma_forest_mono(ch, 0, k as nat);
    }
    entry.children_offset = (lo - node_index) as u32;
    entry.num_children = k as u16;
    arena.set(node_index, entry);
    *next_index = lo + k;
    let ghost arena0 = arena@;
    let mut j: usize = 0;
    while j < k
        invariant
            k == ch.len(),
            ch == node.children@,
            !ends_flop_tree(node.player),
            fan_out_fits(*node),
            node_index < lo,
            lo + flop_tree_size(*node) - 1 <= arena@.len(),
            arena@.len() == arena0.len(),
            arena@.len() <= u32::MAX,
            j <= k,
            *next_index == child_block(ch, lo as int, j as int),
            arena@[node_index as int] == entry,
            entry.children_offset == lo - node_index,
            entry.num_children == k,
            entry.player == node.player,
            entry.amount == node.amount,
            !entry.is_boundary,
            flop_tree_size(*node) == 1 + flop_forest_size(ch, k as nat),
            forall|p: int|
                0 <= p < arena0.len() && p != node_index && !(lo <= p < *next_index)
                    ==> #[trigger] arena@[p] == old(arena)@[p],
            forall|m: int|
                0 <= m < j ==> encodes(arena@, lo + m, #[trigger] ch[m], child_block(ch, lo as int, m)),
        decreases k - j,
    {
        proof {
            lemma_forest_step(ch, j as nat);
            lemma_forest_mono(ch, (j + 1) as nat, k as nat);
            lemma_forest_mono(ch, 0, j as nat);
            assert(fan_out_fits(ch[j as int]));
        }
        let ghost before = arena@;
        let ghost start = *next_index;
        build_subtree(arena, lo + j, &node.children[j], next_index);
        proof {
            assert forall|m: int| 0 <= m < j + 1 implies encodes(
                arena@,
                lo + m,
                #[trigger] ch[m],
                child_block(ch, lo as int, m),
            ) by {
                if m < j {
                    lemma_forest_step(ch, m as nat);
                    lemma_forest_mono(ch, (m + 1) as nat, j as nat);
                    lemma_forest_mono(ch, 0, m as nat);
                    let s = child_block(ch, lo as int, m);
                    assert forall|p: int| s <= p < s + flop_tree_size(ch[m]) - 1 implies #[trigger] arena@[p]
                        == before[p] by {}
                    lemma_encodes_frame(before, arena@, lo + m, ch[m], s);
                }
            }
        }
        j = j + 1;
    }
    proof {
        assert(encodes(arena@, node_index as int, *node, lo as int));
    }
}

/// The flop-only game tree laid out in an arena, root first.
pub struct FlopTree {
    pub nodes: Vec<FlopTreeNode>,
}

impl FlopTree {
    /// Lays out the flop-only tree of `root`: terminal nodes and chance nodes (the flop
    /// boundary) end it; every decision node's children are stored together.
    pub fn from_action_tree(root: &ActionTreeNode) -> (r: FlopTree)
        requires
            flop_tree_size(*root) <= u32::MAX,
            fan_out_fits(*root),
        ensures
            r.nodes@.len() == flop_tree_size(*root),
            encodes(r.nodes@, 0, *root, 1),
    {
        let num_nodes = count_flop_nodes(root);
        let mut arena: Vec<FlopTreeNode> = Vec::new();
        let mut i: usize = 0;
        while i < num_nodes
            invariant
                i <= num_nodes,
                arena@.len() == i,
            decreases num_nodes - i,
        {
            arena.push(
                FlopTreeNode {
                    player: 0,
                    amount: 0,
                    is_boundary: false,
                    children_offset: 0,
                    num_children: 0,
                },
            );
            i = i + 1;
        }
        let mut next_index: usize = 1;
        build_subtree(&mut arena, 0, root, &mut next_index);
        FlopTree { nodes: arena }
    }

    /// Number of nodes of the arena.
    pub fn num_nodes(&self) -> (r: usize)
        ensures
            r == self.nodes@.len(),
    {
        self.nodes.len()
    }

    /// Distinct amounts of the boundary nodes, in the order they first occur in the
    /// arena.
    pub fn boundary_amounts(&self) -> (r: Vec<i32>)
        ensures
            r@ == distinct_boundary_amounts(self.nodes@),
    {
        let mut amounts: Vec<i32> = Vec::new();
        let mut i: usize = 0;
        while i < self.nodes.len()
            invariant
                i <= self.nodes@.len(),
                amounts@ == distinct_boundary_amounts(self.nodes@.take(i as int)),
            decreases self.nodes@.len() - i,
        {
            proof {
                assert(self.nodes@.take(i + 1).drop_last() =~= self.nodes@.take(i as int));
            }
            let node = self.nodes[i];
            if node.is_boundary && !contains_amount(&amounts, node.amount) {
                amounts.push(node.amount);
            }
            i = i + 1;
        }
        assert(self.nodes@.take(i as int) =~= self.nodes@);
        amounts
    }
}

/// Distinct amounts of the boundary nodes of `nodes`, in order of first occurrence.
pub open spec fn distinct_boundary_amounts(nodes: Seq<FlopTreeNode>) -> Seq<i32>
    decreases nodes.len(),
{
    if nodes.len() == 0 {
        Seq::empty()
    } else {
        let prev = distinct_boundary_amounts(nodes.drop_last());
        let n = nodes.last();
        if n.is_boundary && !prev.contains(n.amount) {
            prev.push(n.amount)
        } else {
            prev
        }
    }
}

/// `amounts` contains `x`.
fn contains_amount(amounts: &Vec<i32>, x: i32) -> (r: bool)
    ensures
        r == amounts@.contains(x),
{
    let mut i: usize = 0;
    while i < amounts.len()
        invariant
            i <= amounts@.len(),
            forall|j: int| 0 <= j < i ==> amounts@[j] != x,
        decreases amounts@.len() - i,
    {
        if amounts[i] == x {
            return true;
        }
        i = i + 1;
    }
    false
}

/// Law: the boundary amounts are distinct, each is the amount of a boundary node, and
/// every boundary node's amount is among them.
pub proof fn lemma_boundary_amounts(nodes: Seq<FlopTreeNode>)
    ensures
        distinct_boundary_amounts(nodes).no_duplicates(),
        forall|a: i32|
            #[trigger] distinct_boundary_amounts(nodes).contains(a) <==> exists|i: int|
                0 <= i < nodes.len() && nodes[i].is_boundary && nodes[i].amount == a,
    decreases nodes.len(),
{
    if nodes.len() > 0 {
        let init = nodes.drop_last();
        lemma_boundary_amounts(init);
        let prev = distinct_boundary_amounts(init);
        let cur = distinct_boundary_amounts(nodes);
        let last = nodes.last();
        assert forall|a: i32| #[trigger] cur.contains(a) implies exists|i: int|
            0 <= i < nodes.len() && nodes[i].is_boundary && nodes[i].amount == a by {
            if prev.contains(a) {
                let i = choose|i: int|
                    0 <= i < init.len() && init[i].is_boundary && init[i].amount == a;
                assert(nodes[i] == init[i]);
            } else {
                let w = choose|w: int| 0 <= w < cur.len() && cur[w] == a;
                assert(w == prev.len());
                assert(nodes[nodes.len() - 1] == last);
            }
        }
        assert forall|a: i32|
            (exists|i: int| 0 <= i < nodes.len() && nodes[i].is_boundary && nodes[i].amount == a)
                implies #[trigger] cur.contains(a) by {
            let i = choose|i: int| 0 <= i < nodes.len() && nodes[i].is_boundary && nodes[i].amount == a;
            if i < nodes.len() - 1 {
                assert(init[i] == nodes[i]);
                assert(prev.contains(a));
                let w = choose|w: int| 0 <= w < prev.len() && prev[w] == a;
                assert(cur[w] == a);
            } else {
                assert(last.amount == a);
                if prev.contains(a) {
                    let w = choose|w: int| 0 <= w < prev.len() && prev[w] == a;
                    assert(cur[w] == a);
                } else {
                    assert(cur[prev.len() as int] == a);
                }
            }
        }
    }
}

/// `a` comes before `b`: by first card, then by second card.
pub open spec fn hand_before(a: (Card, Card), b: (Card, Card)) -> bool {
    a.0 < b.0 || (a.0 == b.0 && a.1 < b.1)
}

/// The hands are in strictly increasing order.
pub open spec fn hands_sorted(hands: Seq<(Card, Card)>) -> bool {
    forall|i: int, j: int| 0 <= i < j < hands.len() ==> hand_before(#[trigger] hands[i], #[trigger] hands[j])
}

/// Position of `hand` in `opponent` as stored for the fold evaluation: its index when the
/// opponent holds the same hand, else `u16::MAX`.
pub open spec fn same_hand_slot(opponent: Seq<(Card, Card)>, hand: (Card, Card)) -> u16 {
    if opponent.contains(hand) {
        (choose|j: int| 0 <= j < opponent.len() && opponent[j] == hand) as u16
    } else {
        u16::MAX
    }
}

/// Index of `hand` in the sorted `hands`, found by bisection.
fn find_hand(hands: &[(Card, Card)], hand: (Card, Card)) -> (r: Option<usize>)
    requires
        hands_sorted(hands@),
    ensures
        match r {
            Some(j) => j < hands@.len() && hands@[j as int] == hand,
            None => !hands@.contains(hand),
        },
{
    let mut lo: usize = 0;
    let mut hi: usize = hands.len();
    while lo < hi
        invariant
            hands_sorted(hands@),
            lo <= hi <= hands@.len(),
            forall|i: int| 0 <= i < lo ==> hand_before(#[trigger] hands@[i], hand),
            forall|i: int| hi <= i < hands@.len() ==> hand_before(hand, #[trigger] hands@[i]),
        decreases hi - lo,
    {
        let mid = lo + (hi - lo) / 2;
        let m = hands[mid];
        if m.0 == hand.0 && m.1 == hand.1 {
            return Some(mid);
        }
        if m.0 < hand.0 || (m.0 == hand.0 && m.1 < hand.1) {
            assert forall|i: int| 0 <= i < mid + 1 implies hand_before(#[trigger] hands@[i], hand) by {
                if i < mid {
                    assert(hand_before(hands@[i], hands@[mid as int]));
                }
            }
            lo = mid + 1;
        } else {
            assert forall|i: int| mid <= i < hands@.len() implies hand_before(hand, #[trigger] hands@[i]) by {
                if i > mid {
                    assert(hand_before(hands@[mid as int], hands@[i]));
                }
            }
            hi = mid;
        }
    }
    proof {
        if hands@.contains(hand) {
            let j = choose|j: int| 0 <= j < hands@.len() && hands@[j] == hand;
            assert(hand_before(hands@[j], hand) || hand_before(hand, hands@[j]));
        }
    }
    None
}

/// For every hand of a player, the index of the same hand in the opponent's sorted
/// hands, or `u16::MAX` when the opponent does not hold it.
pub fn same_hand_index(hands: &[(Card, Card)], opponent: &[(Card, Card)]) -> (r: Vec<u16>)
    requires
        hands_sorted(opponent@),
        opponent@.len() <= u16::MAX,
    ensures
        r@.len() == hands@.len(),
        forall|i: int| 0 <= i < hands@.len() ==> #[trigger] r@[i] == same_hand_slot(opponent@, hands@[i]),
{
    let mut out: Vec<u16> = Vec::new();
    let mut i: usize = 0;
    while i < hands.len()
        invariant
            hands_sorted(opponent@),
            opponent@.len() <= u16::MAX,
            i <= hands@.len(),
            out@.len() == i,
            forall|k: int| 0 <= k < i ==> #[trigger] out@[k] == same_hand_slot(opponent@, hands@[k]),
        decreases hands@.len() - i,
    {
        let hand = hands[i];
        let slot = match find_hand(opponent, hand) {
            Some(j) => {
                proof {
                    let c = choose|c: int| 0 <= c < opponent@.len() && opponent@[c] == hand;
                    if c != j {
                        if c < j {
                            assert(hand_before(opponent@[c], opponent@[j as int]));
                        } else {
                            assert(hand_before(opponent@[j as int], opponent@[c]));
                        }
                    }
                }
                j as u16
            },
            None => u16::MAX,
        };
        out.push(slot);
        i = i + 1;
    }
    out
}

} // verus!
