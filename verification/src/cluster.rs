//! Showdown counts of one hand against an opponent range on a complete board, the
//! integer part of a runout equity.
use crate::card::Card;
use vstd::prelude::*;

verus! {

/// The opponent hand `(c1, c2)` shares a card with the dead cards (the board and the
/// hand it is compared with).
pub open spec fn collides(dead: Seq<u8>, c1: u8, c2: u8) -> bool {
    dead.contains(c1) || dead.contains(c2)
}

/// Points and total over the first `n` opponent hands that do not collide with the dead
/// cards: a win counts two points, a tie one, and each such hand adds two to the total.
pub open spec fn showdown_points(
    player_strength: u16,
    dead: Seq<u8>,
    hands: Seq<(u8, u8)>,
    strengths: Seq<u16>,
    n: nat,
) -> (nat, nat)
    decreases n,
{
    if n == 0 {
        (0, 0)
    } else {
        let prev = showdown_points(player_strength, dead, hands, strengths, (n - 1) as nat);
        let (c1, c2) = hands[n - 1];
        let s = strengths[n - 1];
        if collides(dead, c1, c2) {
            prev
        } else if player_strength > s {
            ((prev.0 + 2) as nat, (prev.1 + 2) as nat)
        } else if player_strength == s {
            ((prev.0 + 1) as nat, (prev.1 + 2) as nat)
        } else {
            (prev.0, (prev.1 + 2) as nat)
        }
    }
}

proof fn lemma_points_bounded(
    player_strength: u16,
    dead: Seq<u8>,
    hands: Seq<(u8, u8)>,
    strengths: Seq<u16>,
    n: nat,
)
    ensures
        showdown_points(player_strength, dead, hands, strengths, n).0 <= showdown_points(
            player_strength,
            dead,
            hands,
            strengths,
            n,
        ).1 <= 2 * n,
    decreases n,
{
    if n > 0 {
        lemma_points_bounded(player_strength, dead, hands, strengths, (n - 1) as nat);
    }
}

fn contains_card(cards: &[Card], c: Card) -> (r: bool)
    ensures
        r == cards@.contains(c),
{
    let mut i: usize = 0;
    while i < cards.len()
        invariant
            i <= cards.len(),
            forall|j: int| 0 <= j < i ==> cards@[j] != c,
        decreases cards.len() - i,
    {
        if cards[i] == c {
            return true;
        }
        i += 1;
    }
    false
}

/// Showdown counts of a hand of strength `player_strength` (higher is better) against the
/// opponent hands `opponent_hands`, of strengths `opponent_strengths`, on a complete
/// board: the opponent hands that share a card with `dead` (the board and the hand) are
/// skipped; each other one adds two points for a win, one for a tie, and two to the
/// total. Returns `(points, total)`; the equity is `points / total`, or one half when
/// the total is zero.
pub fn showdown_counts(
    player_strength: u16,
    dead: &[Card],
    opponent_hands: &[(Card, Card)],
    opponent_strengths: &[u16],
) -> (r: (u32, u32))
    requires
        opponent_strengths.len() == opponent_hands.len(),
        2 * opponent_hands.len() <= u32::MAX,
    ensures
        r.0 == showdown_points(
            player_strength,
            dead@,
            opponent_hands@,
            opponent_strengths@,
            opponent_hands.len() as nat,
        ).0,
        r.1 == showdown_points(
            player_strength,
            dead@,
            opponent_hands@,
            opponent_strengths@,
            opponent_hands.len() as nat,
        ).1,
{
    let mut wins: u32 = 0;
    let mut total: u32 = 0;
    let mut i: usize = 0;
    while i < opponent_hands.len()
        invariant
            i <= opponent_hands.len(),
            opponent_strengths.len() == opponent_hands.len(),
            2 * opponent_hands.len() <= u32::MAX,
            (wins as nat, total as nat) == showdown_points(
                player_strength,
                dead@,
                opponent_hands@,
                opponent_strengths@,
                i as nat,
            ),
        decreases opponent_hands.len() - i,
    {
        proof {
            lemma_points_bounded(
                player_strength,
                dead@,
                opponent_hands@,
                opponent_strengths@,
                i as nat,
            );
        }
        let (c1, c2) = opponent_hands[i];
        let s = opponent_strengths[i];
        let blocked = contains_card(dead, c1) || contains_card(dead, c2);
        if !blocked {
            if player_strength > s {
                wins = wins + 2;
            } else if player_strength == s {
                wins = wins + 1;
            }
            total = total + 2;
        }
        i += 1;
    }
    (wins, total)
}

} // verus!
