//! Cards and the index of every two-card combination (0..1326).
use vstd::prelude::*;

verus! {

/// A card is `4 * rank + suit` with rank `0..13` (deuce to ace) and suit `0..4`.
pub type Card = u8;

/// Marker for a board card that has not been dealt yet.
pub const NOT_DEALT: Card = 255;

/// Number of distinct two-card combinations from a 52-card deck.
pub const NUM_COMBOS: usize = 1326;

/// Number of two-card combinations whose lower card is below `c1`.
pub open spec fn pair_base(c1: nat) -> nat
    decreases c1,
{
    if c1 == 0 {
        0
    } else {
        (pair_base((c1 - 1) as nat) + 52 - c1) as nat
    }
}

/// Index of the combination `{c1, c2}` with `c1 < c2` in lexicographic order.
pub open spec fn pair_index(c1: nat, c2: nat) -> nat {
    (pair_base(c1) + c2 - c1 - 1) as nat
}

/// Lower card of the combination with index `idx`, searching from `c1` upwards.
pub open spec fn first_card_from(idx: nat, c1: nat) -> nat
    decreases 51 - c1,
{
    if c1 >= 51 || idx < pair_base(c1 + 1) {
        c1
    } else {
        first_card_from(idx, c1 + 1)
    }
}

/// The two cards (lower first) of the combination with index `idx`.
pub open spec fn index_pair(idx: nat) -> (nat, nat) {
    let c1 = first_card_from(idx, 0);
    (c1, (idx - pair_base(c1) + c1 + 1) as nat)
}

pub proof fn lemma_pair_base_closed(c1: nat)
    requires
        c1 <= 52,
    ensures
        2 * (pair_base(c1) as int) == (c1 as int) * (103 - c1 as int),
    decreases c1,
{
    if c1 > 0 {
        let p = (c1 - 1) as nat;
        lemma_pair_base_closed(p);
        assert(p == c1 - 1);
        assert(pair_base(c1) == pair_base(p) + 52 - c1);
        let x = c1 as int;
        assert(x * (103 - x) == (x - 1) * (103 - (x - 1)) + 2 * (52 - x)) by (nonlinear_arith);
        assert(2 * pair_base(p) == (x - 1) * (103 - (x - 1)));
        assert(2 * (pair_base(c1) as int) == 2 * (pair_base(p) as int) + 2 * (52 - x));
        assert(2 * (pair_base(c1) as int) == x * (103 - x));
    } else {
        assert(pair_base(c1) == 0);
        assert((c1 as int) * (103 - c1 as int) == 0);
    }
}

pub proof fn lemma_pair_base_monotone(a: nat, b: nat)
    requires
        a <= b <= 52,
    ensures
        pair_base(a) <= pair_base(b),
        b <= 51 ==> pair_base(a) + (b - a) <= pair_base(b),
        a < b ==> pair_base(a) + 51 - a == pair_base(a + 1),
        pair_base(52) == 1326,
    decreases b - a,
{
    lemma_pair_base_closed(52);
    if a < b {
        lemma_pair_base_monotone(a, (b - 1) as nat);
    }
}

proof fn lemma_first_card_from(idx: nat, c1: nat)
    requires
        idx < 1326,
        c1 <= 51,
        pair_base(c1) <= idx,
    ensures
        c1 <= first_card_from(idx, c1) <= 51,
        pair_base(first_card_from(idx, c1)) <= idx < pair_base(first_card_from(idx, c1) + 1),
    decreases 51 - c1,
{
    lemma_pair_base_monotone(c1, 52);
    lemma_pair_base_monotone(c1, c1 + 1);
    if c1 < 51 && idx >= pair_base(c1 + 1) {
        lemma_first_card_from(idx, c1 + 1);
    } else if c1 >= 51 {
        lemma_pair_base_monotone(51, 52);
    }
}

/// `index_pair` yields a valid pair whose index is `idx`.
pub proof fn lemma_index_pair(idx: nat)
    requires
        idx < 1326,
    ensures
        index_pair(idx).0 < index_pair(idx).1 < 52,
        pair_index(index_pair(idx).0, index_pair(idx).1) == idx,
{
    lemma_first_card_from(idx, 0);
    let c1 = first_card_from(idx, 0);
    lemma_pair_base_monotone(c1, c1 + 1);
}

/// Distinct pairs have distinct indices, and `index_pair` inverts `pair_index`.
pub proof fn lemma_pair_index(c1: nat, c2: nat)
    requires
        c1 < c2 < 52,
    ensures
        pair_base(c1) <= pair_index(c1, c2) < pair_base(c1 + 1),
        pair_index(c1, c2) < 1326,
        index_pair(pair_index(c1, c2)) == (c1, c2),
{
    lemma_pair_base_monotone(c1, c1 + 1);
    lemma_pair_base_monotone(c1 + 1, 52);
    let idx = pair_index(c1, c2);
    lemma_first_card_from(idx, 0);
    let f = first_card_from(idx, 0);
    if f < c1 {
        lemma_pair_base_monotone(f + 1, c1);
    } else if f > c1 {
        lemma_pair_base_monotone(c1 + 1, f);
    }
}

/// Index of the combination of two distinct cards, in `0..1326`.
pub fn card_pair_to_index(card1: Card, card2: Card) -> (r: usize)
    requires
        card1 < 52,
        card2 < 52,
        card1 != card2,
    ensures
        card1 < card2 ==> r == pair_index(card1 as nat, card2 as nat),
        card2 < card1 ==> r == pair_index(card2 as nat, card1 as nat),
        r < 1326,
{
    let (a, b) = if card1 < card2 { (card1, card2) } else { (card2, card1) };
    proof {
        lemma_pair_base_closed(a as nat);
        lemma_pair_index(a as nat, b as nat);
    }
    let a = a as usize;
    let b = b as usize;
    assert(a * (101 - a) <= 52 * 101) by (nonlinear_arith)
        requires a <= 51;
    assert((a * (101 - a)) / 2 == pair_base(a as nat) - a) by (nonlinear_arith)
        requires 2 * (pair_base(a as nat) as int) == (a as int) * (103 - a as int), a <= 51;
    a * (101 - a) / 2 + b - 1
}

/// The two cards (lower first) of the combination with index `index`.
pub fn index_to_card_pair(index: usize) -> (r: (Card, Card))
    requires
        index < 1326,
    ensures
        r.0 < r.1 < 52,
        (r.0 as nat, r.1 as nat) == index_pair(index as nat),
        pair_index(r.0 as nat, r.1 as nat) == index,
{
    proof {
        lemma_index_pair(index as nat);
    }
    let ghost target = index_pair(index as nat);
    proof {
        lemma_pair_base_monotone(0, target.0);
    }
    let mut c1: usize = 0;
    let mut base: usize = 0;
    while base + (51 - c1) <= index
        invariant
            c1 <= target.0,
            base == pair_base(c1 as nat),
            base <= index,
            target.0 < target.1 < 52,
            pair_base(target.0) <= index < pair_base(target.0 + 1),
            index < 1326,
        decreases 51 - c1,
    {
        proof {
            lemma_pair_base_monotone(c1 as nat, c1 as nat + 1);
            if c1 == target.0 {
                assert(false);
            }
            lemma_pair_base_monotone(c1 as nat + 1, target.0);
            lemma_pair_base_monotone(target.0, target.0 + 1);
        }
        base = base + (51 - c1);
        c1 = c1 + 1;
    }
    proof {
        lemma_pair_base_monotone(c1 as nat, c1 as nat + 1);
        if c1 < target.0 {
            lemma_pair_base_monotone(c1 as nat + 1, target.0);
        }
    }
    let c2 = index - base + c1 + 1;
    (c1 as u8, c2 as u8)
}

} // verus!
