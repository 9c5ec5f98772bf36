//! Flop hand scores used when ranking hands against each other at flop terminals.
use vstd::prelude::*;
use crate::card::Card;
use crate::strength::{flush_draw, has_flush_draw, high_card_base, made_score, made_score_exec};

verus! {

/// Number of one bits of `x`.
pub open spec fn popcount(x: u64) -> nat
    decreases x,
{
    if x == 0 {
        0
    } else {
        (x % 2) as nat + popcount(x / 2)
    }
}

/// `u64::count_ones`: the number of ones in the binary representation.
pub assume_specification[ u64::count_ones ](x: u64) -> (r: u32)
    ensures
        r == popcount(x),
;

/// Rank set of `ranks` in which an ace (rank 12) also counts as rank 0.
pub open spec fn ace_low_rank_set(ranks: Seq<u8>) -> u64
    decreases ranks.len(),
{
    if ranks.len() == 0 {
        0
    } else {
        let r = ranks.last();
        let with = ace_low_rank_set(ranks.drop_last()) | (1u64 << (r as u64));
        if r == 12 {
            with | 1u64
        } else {
            with
        }
    }
}

/// Largest number of ranks present in any window of five consecutive ranks starting at
/// or below `s`.
pub open spec fn best_window(set: u64, s: nat) -> nat
    decreases s,
{
    let here = popcount(set & (31u64 << (s as u64)));
    if s == 0 {
        here
    } else {
        let below = best_window(set, (s - 1) as nat);
        if below >= here {
            below
        } else {
            here
        }
    }
}

/// Straight potential: most ranks present in any five consecutive ranks (ace low too).
pub open spec fn straight_potential(ranks: Seq<u8>) -> nat {
    best_window(ace_low_rank_set(ranks), 9)
}

proof fn lemma_popcount_window(x: u64, s: u64)
    requires
        s <= 9,
    ensures
        popcount(x & (31u64 << s)) <= 5,
{
    let w = x & (31u64 << s);
    assert(w == ((w >> s) & 31u64) << s) by (bit_vector)
        requires
            w == x & (31u64 << s),
            s <= 9,
    ;
    lemma_popcount_shift(w, s);
    let v = (w >> s) & 31u64;
    assert(v < 32) by (bit_vector)
        requires
            v == (w >> s) & 31u64,
    ;
    lemma_popcount_small(v);
}

proof fn lemma_popcount_small(v: u64)
    requires
        v < 32,
    ensures
        popcount(v) <= 5,
{
    reveal_with_fuel(popcount, 6);
}

proof fn lemma_popcount_shift(w: u64, s: u64)
    requires
        s <= 9,
        w == ((w >> s) & 31u64) << s,
    ensures
        popcount(w) == popcount((w >> s) & 31u64),
    decreases s,
{
    if s > 0 {
        let w2 = w >> 1u64;
        assert(w % 2 == 0 && w / 2 == w2 && w2 == ((w2 >> ((s - 1) as u64)) & 31u64) << ((s
            - 1) as u64) && (w >> s) & 31u64 == (w2 >> ((s - 1) as u64)) & 31u64) by (bit_vector)
            requires
                s <= 9,
                s > 0,
                w == ((w >> s) & 31u64) << s,
                w2 == w >> 1u64,
        ;
        if w != 0 {
            assert(popcount(w) == popcount(w / 2));
        }
        lemma_popcount_shift(w2, (s - 1) as u64);
    } else {
        assert((w >> s) & 31u64 == w) by (bit_vector)
            requires
                s == 0,
                w == ((w >> s) & 31u64) << s,
        ;
    }
}

/// Most ranks of `ranks` present in any window of five consecutive ranks, an ace also
/// counting as the lowest rank.
pub fn count_straight_outs(ranks: &[u8]) -> (r: u8)
    requires
        forall|i: int| 0 <= i < ranks.len() ==> #[trigger] ranks[i] < 64,
    ensures
        r == straight_potential(ranks@),
{
    let mut rank_set: u64 = 0;
    let mut i: usize = 0;
    while i < ranks.len()
        invariant
            i <= ranks.len(),
            forall|j: int| 0 <= j < ranks.len() ==> #[trigger] ranks[j] < 64,
            rank_set == ace_low_rank_set(ranks@.take(i as int)),
        decreases ranks.len() - i,
    {
        assert(ranks@.take(i + 1).drop_last() =~= ranks@.take(i as int));
        let r = ranks[i];
        rank_set |= 1u64 << (r as u64);
        if r == 12 {
            // an ace can also play low
            rank_set |= 1u64 << 0;
        }
        assert((1u64 << 0u64) == 1u64) by (bit_vector);
        i += 1;
    }
    assert(ranks@.take(ranks.len() as int) =~= ranks@);

    let mut max_connected: u8 = 0;
    let mut start: u64 = 0;
    while start <= 9
        invariant
            start <= 10,
            start == 0 ==> max_connected == 0,
            start > 0 ==> max_connected == best_window(rank_set, (start - 1) as nat),
            max_connected <= 5,
            rank_set == ace_low_rank_set(ranks@),
        decreases 10 - start,
    {
        let mask = 0b11111u64 << start;
        proof {
            lemma_popcount_window(rank_set, start);
        }
        let count = (rank_set & mask).count_ones() as u8;
        max_connected = if max_connected >= count { max_connected } else { count };
        start += 1;
    }
    max_connected
}

/// Flop score of the value map: made hands as in [`made_score`]; otherwise, with
/// base = 15 high + low: combo draw (flush draw and four to a straight) 2500 + base,
/// flush draw 2000 + base, open-ended (four to a straight) 1500 + base, gutshot (three)
/// 1000 + base, else the base.
pub open spec fn ev_strength(flop: [u8; 3], c1: u8, c2: u8) -> nat {
    match made_score(flop, c1, c2) {
        Some(v) => v,
        None => {
            let base = high_card_base(c1, c2);
            let sp = straight_potential(seq![c1 / 4, c2 / 4, flop[0] / 4, flop[1] / 4, flop[2] / 4]);
            let fd = flush_draw(flop, c1, c2);
            if fd && sp >= 4 {
                2500 + base
            } else if fd {
                2000 + base
            } else if sp >= 4 {
                1500 + base
            } else if sp >= 3 {
                1000 + base
            } else {
                base
            }
        },
    }
}

/// Simple hand strength on the flop (see [`ev_strength`]).
pub fn simple_hand_strength(c1: Card, c2: Card, flop: &[Card; 3]) -> (r: u32)
    ensures
        r == ev_strength(*flop, c1, c2),
{
    let (made, base) = made_score_exec(flop, c1, c2);
    match made {
        Some(v) => {
            return v;
        },
        None => {},
    }
    let flush = has_flush_draw(flop, c1, c2);
    let all_ranks: [u8; 5] = [c1 / 4, c2 / 4, flop[0] / 4, flop[1] / 4, flop[2] / 4];
    assert(all_ranks@ =~= seq![c1 / 4, c2 / 4, flop[0] / 4, flop[1] / 4, flop[2] / 4]);
    let straight_potential = count_straight_outs(&all_ranks);
    if flush && straight_potential >= 4 {
        return 2500 + base;
    }
    if flush {
        return 2000 + base;
    }
    if straight_potential >= 4 {
        return 1500 + base;
    }
    if straight_potential >= 3 {
        return 1000 + base;
    }
    base
}

} // verus!
