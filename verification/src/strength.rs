//! Coarse hand-strength scores of two hole cards on the flop, used to rank hands without
//! the full evaluator.
use vstd::prelude::*;
use crate::card::Card;

verus! {

/// Number of flop cards whose rank is `r1` or `r2`.
pub open spec fn flop_rank_matches(flop: [u8; 3], r1: int, r2: int) -> nat {
    (if flop[0] / 4 == r1 || flop[0] / 4 == r2 { 1nat } else { 0nat }) + (if flop[1] / 4 == r1
        || flop[1] / 4 == r2 { 1nat } else { 0nat }) + (if flop[2] / 4 == r1 || flop[2] / 4
        == r2 { 1nat } else { 0nat })
}

/// Number of flop cards of suit `s`.
pub open spec fn flop_suit_matches(flop: [u8; 3], s: int) -> nat {
    (if flop[0] % 4 == s { 1nat } else { 0nat }) + (if flop[1] % 4 == s { 1nat } else { 0nat })
        + (if flop[2] % 4 == s { 1nat } else { 0nat })
}

/// Some flop card has rank `r`.
pub open spec fn flop_has_rank(flop: [u8; 3], r: int) -> bool {
    flop[0] / 4 == r || flop[1] / 4 == r || flop[2] / 4 == r
}

/// Score shared by both variants for made hands: full-house potential 7000 + high,
/// trips 6000 + high, overpair 4500 + 15 high, pocket pair 4000 + 15 high, one pair with
/// the board 3000 + 15 pair + kicker; `None` when the hand pairs nothing.
pub open spec fn made_score(flop: [u8; 3], c1: u8, c2: u8) -> Option<nat> {
    let r1 = (c1 / 4) as int;
    let r2 = (c2 / 4) as int;
    let high = if r1 >= r2 { r1 } else { r2 };
    let paired = r1 == r2;
    let matching = flop_rank_matches(flop, r1, r2);
    if matching >= 2 && paired {
        Some((7000 + high) as nat)
    } else if matching >= 2 {
        Some((6000 + high) as nat)
    } else if paired {
        if flop[0] / 4 < r1 && flop[1] / 4 < r1 && flop[2] / 4 < r1 {
            Some((4500 + high * 15) as nat)
        } else {
            Some((4000 + high * 15) as nat)
        }
    } else if matching == 1 {
        let pair_rank = if flop_has_rank(flop, r1) { r1 } else { r2 };
        let kicker = if pair_rank == r1 { r2 } else { r1 };
        Some((3000 + pair_rank * 15 + kicker) as nat)
    } else {
        None
    }
}

/// Law: when the hole cards are of different ranks and exactly one flop card, the one at
/// `j`, pairs one of them, the hand scores as one pair: 3000, plus 15 times the rank of
/// the hole card that the flop pairs, plus the rank of the other hole card as kicker.
pub proof fn lemma_one_pair_score(flop: [u8; 3], c1: u8, c2: u8, j: int)
    requires
        c1 / 4 != c2 / 4,
        0 <= j < 3,
        flop[j] / 4 == c1 / 4 || flop[j] / 4 == c2 / 4,
        forall|k: int| 0 <= k < 3 && k != j ==> #[trigger] flop[k] / 4 != c1 / 4 && flop[k] / 4
            != c2 / 4,
    ensures
        flop[j] / 4 == c1 / 4 ==> made_score(flop, c1, c2) == Some((3000 + 15 * (c1 / 4) + c2
            / 4) as nat),
        flop[j] / 4 == c2 / 4 ==> made_score(flop, c1, c2) == Some((3000 + 15 * (c2 / 4) + c1
            / 4) as nat),
{
    assert(flop[0int] == flop[0] && flop[1int] == flop[1] && flop[2int] == flop[2]);
}

/// Law: the made-hand score does not depend on the order of the hole cards.
pub proof fn lemma_made_score_symmetric(flop: [u8; 3], c1: u8, c2: u8)
    ensures
        made_score(flop, c1, c2) == made_score(flop, c2, c1),
{
}

/// Base score of an unpaired hand: 15 high + low.
pub open spec fn high_card_base(c1: u8, c2: u8) -> nat {
    let r1 = (c1 / 4) as int;
    let r2 = (c2 / 4) as int;
    let high = if r1 >= r2 { r1 } else { r2 };
    let low = if r1 >= r2 { r2 } else { r1 };
    (high * 15 + low) as nat
}

/// Suited hole cards with at least two flop cards of their suit.
pub open spec fn flush_draw(flop: [u8; 3], c1: u8, c2: u8) -> bool {
    c1 % 4 == c2 % 4 && flop_suit_matches(flop, (c1 % 4) as int) >= 2
}

/// Flop score of the solver's game: made hands as in [`made_score`], then a flush draw
/// 2000 + base, else the high-card base.
pub open spec fn flop_strength(flop: [u8; 3], c1: u8, c2: u8) -> nat {
    match made_score(flop, c1, c2) {
        Some(v) => v,
        None => if flush_draw(flop, c1, c2) {
            2000 + high_card_base(c1, c2)
        } else {
            high_card_base(c1, c2)
        },
    }
}

/// Computes [`made_score`] and the high-card base.
pub fn made_score_exec(flop: &[Card; 3], c1: Card, c2: Card) -> (r: (Option<u32>, u32))
    ensures
        match made_score(*flop, c1, c2) {
            Some(v) => r.0 == Some(v as u32),
            None => r.0 is None,
        },
        r.1 == high_card_base(c1, c2),
{
    let rank1 = c1 / 4;
    let rank2 = c2 / 4;
    let high = if rank1 >= rank2 { rank1 } else { rank2 };
    let low = if rank1 >= rank2 { rank2 } else { rank1 };
    let paired = rank1 == rank2;
    let base = high as u32 * 15 + low as u32;

    // flop cards pairing one of the hole cards
    let mut matching: u32 = 0;
    let mut pair_rank: u8 = 0;
    let mut i: usize = 0;
    while i < 3
        invariant
            i <= 3,
            matching <= i,
            matching == (if i > 0 && (flop[0] / 4 == rank1 || flop[0] / 4 == rank2) { 1nat } else { 0nat })
                + (if i > 1 && (flop[1] / 4 == rank1 || flop[1] / 4 == rank2) { 1nat } else { 0nat })
                + (if i > 2 && (flop[2] / 4 == rank1 || flop[2] / 4 == rank2) { 1nat } else { 0nat }),
            matching >= 1 ==> (pair_rank == rank1 || pair_rank == rank2),
            matching == 1 && !paired ==> (pair_rank == rank1 <==> exists|j: int| 0 <= j < i && #[trigger] flop[j] / 4 == rank1),
        decreases 3 - i,
    {
        let r = flop[i] / 4;
        if r == rank1 || r == rank2 {
            if matching == 0 {
                pair_rank = r;
            }
            matching += 1;
        }
        i += 1;
    }
    proof {
        assert(flop_has_rank(*flop, rank1 as int) <==> exists|j: int| 0 <= j < 3 && #[trigger] flop[j] / 4 == rank1) by {
            if flop_has_rank(*flop, rank1 as int) {
                if flop[0] / 4 == rank1 {
                    assert(flop[0int] / 4 == rank1);
                } else if flop[1] / 4 == rank1 {
                    assert(flop[1int] / 4 == rank1);
                } else {
                    assert(flop[2int] / 4 == rank1);
                }
            }
        }
    }
    if matching >= 2 && paired {
        return (Some(7000 + high as u32), base);
    }
    if matching >= 2 {
        return (Some(6000 + high as u32), base);
    }
    if paired {
        let overpair = flop[0] / 4 < rank1 && flop[1] / 4 < rank1 && flop[2] / 4 < rank1;
        if overpair {
            return (Some(4500 + high as u32 * 15), base);
        }
        return (Some(4000 + high as u32 * 15), base);
    }
    if matching == 1 {
        let kicker = if pair_rank == rank1 { rank2 } else { rank1 };
        return (Some(3000 + pair_rank as u32 * 15 + kicker as u32), base);
    }
    (None, base)
}

/// Whether the hole cards are suited with at least two flop cards of their suit.
pub fn has_flush_draw(flop: &[Card; 3], c1: Card, c2: Card) -> (r: bool)
    ensures
        r == flush_draw(*flop, c1, c2),
{
    if c1 % 4 != c2 % 4 {
        return false;
    }
    let s = c1 % 4;
    let n = (if flop[0] % 4 == s { 1u8 } else { 0u8 }) + (if flop[1] % 4 == s { 1u8 } else { 0u8 })
        + (if flop[2] % 4 == s { 1u8 } else { 0u8 });
    n >= 2
}

} // verus!
