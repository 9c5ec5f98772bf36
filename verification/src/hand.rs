//! Rank and suit sets of a set of cards, straights, and straight-draw outs.
use vstd::prelude::*;
use crate::card::Card;

verus! {

/// Whether rank `r` is present in the rank bitset `bits`.
pub open spec fn has_rank(bits: u16, r: u16) -> bool {
    (bits >> r) & 1u16 == 1u16
}

/// Five consecutive ranks starting at `s` are all present.
pub open spec fn run_of_five(bits: u16, s: u16) -> bool {
    has_rank(bits, s) && has_rank(bits, (s + 1) as u16) && has_rank(bits, (s + 2) as u16)
        && has_rank(bits, (s + 3) as u16) && has_rank(bits, (s + 4) as u16)
}

/// The ace-to-five straight (ace plays low).
pub open spec fn is_wheel(bits: u16) -> bool {
    has_rank(bits, 12) && has_rank(bits, 0) && has_rank(bits, 1) && has_rank(bits, 2)
        && has_rank(bits, 3)
}

/// The rank set contains a straight.
pub open spec fn is_straight(bits: u16) -> bool {
    (exists|s: u16| s < 9 && #[trigger] run_of_five(bits, s)) || is_wheel(bits)
}

/// Bitset of the ranks of `cards`.
pub open spec fn rank_set(cards: Seq<u8>) -> u16
    decreases cards.len(),
{
    if cards.len() == 0 {
        0
    } else {
        rank_set(cards.drop_last()) | (1u16 << ((cards.last() / 4) as u16))
    }
}

/// Bitset of the ranks of those `cards` whose suit is `s`.
pub open spec fn suit_rank_set(cards: Seq<u8>, s: int) -> u16
    decreases cards.len(),
{
    if cards.len() == 0 {
        0
    } else if cards.last() % 4 == s {
        suit_rank_set(cards.drop_last(), s) | (1u16 << ((cards.last() / 4) as u16))
    } else {
        suit_rank_set(cards.drop_last(), s)
    }
}

/// Number of `cards` of suit `s`.
pub open spec fn count_suit(cards: Seq<u8>, s: int) -> nat
    decreases cards.len(),
{
    if cards.len() == 0 {
        0
    } else {
        count_suit(cards.drop_last(), s) + if cards.last() % 4 == s { 1nat } else { 0nat }
    }
}

/// Number of `cards` of rank `r`.
pub open spec fn count_rank(cards: Seq<u8>, r: int) -> nat
    decreases cards.len(),
{
    if cards.len() == 0 {
        0
    } else {
        count_rank(cards.drop_last(), r) + if cards.last() / 4 == r { 1nat } else { 0nat }
    }
}

/// All cards are real cards.
pub open spec fn all_cards(cards: Seq<u8>) -> bool {
    forall|i: int| 0 <= i < cards.len() ==> #[trigger] cards[i] < 52
}

proof fn lemma_run_mask(bits: u16, s: u16)
    requires
        s < 9,
    ensures
        (bits & (31u16 << s) == (31u16 << s)) == run_of_five(bits, s),
{
    assert((bits & (31u16 << s) == (31u16 << s)) == (((bits >> s) & 1u16 == 1u16) && ((bits >> (
    (s + 1) as u16)) & 1u16 == 1u16) && ((bits >> ((s + 2) as u16)) & 1u16 == 1u16) && ((bits
        >> ((s + 3) as u16)) & 1u16 == 1u16) && ((bits >> ((s + 4) as u16)) & 1u16 == 1u16)))
        by (bit_vector)
        requires
            s < 9,
    ;
}

proof fn lemma_wheel_mask(bits: u16)
    ensures
        (bits & 0x100fu16 == 0x100fu16) == is_wheel(bits),
{
    assert((bits & 0x100fu16 == 0x100fu16) == (((bits >> 12u16) & 1u16 == 1u16) && ((bits
        >> 0u16) & 1u16 == 1u16) && ((bits >> 1u16) & 1u16 == 1u16) && ((bits >> 2u16) & 1u16
        == 1u16) && ((bits >> 3u16) & 1u16 == 1u16))) by (bit_vector);
}

/// Whether the rank set contains five consecutive ranks (the wheel counts).
pub fn check_straight(rank_bits: u16) -> (r: bool)
    ensures
        r == is_straight(rank_bits),
{
    let mut start: u16 = 0;
    while start < 9
        invariant
            start <= 9,
            forall|s: u16| s < start ==> !#[trigger] run_of_five(rank_bits, s),
        decreases 9 - start,
    {
        let mask = 0b11111u16 << start;
        proof {
            lemma_run_mask(rank_bits, start);
        }
        if rank_bits & mask == mask {
            assert(run_of_five(rank_bits, start));
            return true;
        }
        start += 1;
    }
    // ace, deuce, three, four and five
    let wheel: u16 = 0x100f;
    proof {
        lemma_wheel_mask(rank_bits);
    }
    rank_bits & wheel == wheel
}

/// Adds the rank of `c` to the rank set.
pub fn add_rank(bits: u16, c: Card) -> (r: u16)
    requires
        c < 52,
    ensures
        r == bits | (1u16 << ((c / 4) as u16)),
{
    bits | (1u16 << ((c / 4) as u16))
}


/// The six cards made of the two hole cards followed by the four board cards.
pub open spec fn six_cards(c1: u8, c2: u8, board: [u8; 4]) -> Seq<u8> {
    seq![c1, c2, board[0], board[1], board[2], board[3]]
}

/// Rank set of all `cards`.
pub fn rank_set_of(cards: &[Card]) -> (r: u16)
    requires
        all_cards(cards@),
    ensures
        r == rank_set(cards@),
{
    let mut bits: u16 = 0;
    let mut i: usize = 0;
    while i < cards.len()
        invariant
            i <= cards.len(),
            all_cards(cards@),
            bits == rank_set(cards@.take(i as int)),
        decreases cards.len() - i,
    {
        assert(cards@.take(i + 1).drop_last() =~= cards@.take(i as int));
        assert(cards[i as int] < 52);
        bits = add_rank(bits, cards[i]);
        i += 1;
    }
    assert(cards@.take(cards.len() as int) =~= cards@);
    bits
}

/// Rank set of the `cards` of suit `s`.
pub fn suit_rank_set_of(cards: &[Card], s: u8) -> (r: u16)
    requires
        all_cards(cards@),
    ensures
        r == suit_rank_set(cards@, s as int),
{
    let mut bits: u16 = 0;
    let mut i: usize = 0;
    while i < cards.len()
        invariant
            i <= cards.len(),
            all_cards(cards@),
            bits == suit_rank_set(cards@.take(i as int), s as int),
        decreases cards.len() - i,
    {
        assert(cards@.take(i + 1).drop_last() =~= cards@.take(i as int));
        assert(cards[i as int] < 52);
        if cards[i] % 4 == s {
            bits = add_rank(bits, cards[i]);
        }
        i += 1;
    }
    assert(cards@.take(cards.len() as int) =~= cards@);
    bits
}

/// Number of `cards` of suit `s`.
pub fn count_suit_of(cards: &[Card], s: u8) -> (r: u8)
    requires
        cards.len() <= 255,
    ensures
        r == count_suit(cards@, s as int),
        r <= cards.len(),
{
    let mut n: u8 = 0;
    let mut i: usize = 0;
    while i < cards.len()
        invariant
            i <= cards.len() <= 255,
            n == count_suit(cards@.take(i as int), s as int),
            n <= i,
        decreases cards.len() - i,
    {
        assert(cards@.take(i + 1).drop_last() =~= cards@.take(i as int));
        if cards[i] % 4 == s {
            n += 1;
        }
        i += 1;
    }
    assert(cards@.take(cards.len() as int) =~= cards@);
    n
}

/// Number of `cards` of rank `rank`.
pub fn count_rank_of(cards: &[Card], rank: u8) -> (r: u8)
    requires
        cards.len() <= 255,
    ensures
        r == count_rank(cards@, rank as int),
        r <= cards.len(),
{
    let mut n: u8 = 0;
    let mut i: usize = 0;
    while i < cards.len()
        invariant
            i <= cards.len() <= 255,
            n == count_rank(cards@.take(i as int), rank as int),
            n <= i,
        decreases cards.len() - i,
    {
        assert(cards@.take(i + 1).drop_last() =~= cards@.take(i as int));
        if cards[i] / 4 == rank {
            n += 1;
        }
        i += 1;
    }
    assert(cards@.take(cards.len() as int) =~= cards@);
    n
}

proof fn lemma_rank_bit(bits: u16, r: u16)
    requires
        r < 16,
    ensures
        (bits & (1u16 << r) != 0) == has_rank(bits, r),
{
    assert((bits & (1u16 << r) != 0) == ((bits >> r) & 1u16 == 1u16)) by (bit_vector)
        requires
            r < 16,
    ;
}

/// Outs contributed by rank `r`: four cards of a missing rank that complete a straight.
pub open spec fn draw_out_term(bits: u16, r: u16) -> nat {
    if !has_rank(bits, r) && is_straight(bits | (1u16 << r)) {
        4
    } else {
        0
    }
}

/// Straight outs over ranks below `r`.
pub open spec fn outs_below(bits: u16, r: u16) -> nat
    decreases r,
{
    if r == 0 {
        0
    } else {
        outs_below(bits, (r - 1) as u16) + draw_out_term(bits, (r - 1) as u16)
    }
}

/// Straight-draw outs of a rank set: zero when it already holds a straight, otherwise
/// four for every missing rank that would complete one.
pub open spec fn straight_draw_outs(bits: u16) -> nat {
    if is_straight(bits) {
        0
    } else {
        outs_below(bits, 13)
    }
}

proof fn lemma_outs_below_bound(bits: u16, r: u16)
    requires
        r <= 13,
    ensures
        outs_below(bits, r) <= 4 * r,
    decreases r,
{
    if r > 0 {
        lemma_outs_below_bound(bits, (r - 1) as u16);
    }
}

/// Number of cards that would give the hand a straight it does not yet have.
pub fn count_straight_draw_outs(c1: Card, c2: Card, board: &[Card; 4]) -> (r: u8)
    requires
        all_cards(six_cards(c1, c2, *board)),
    ensures
        r == straight_draw_outs(rank_set(six_cards(c1, c2, *board))),
{
    let cards: [Card; 6] = [c1, c2, board[0], board[1], board[2], board[3]];
    assert(cards@ =~= six_cards(c1, c2, *board));
    let rank_bits = rank_set_of(&cards);
    if check_straight(rank_bits) {
        return 0;
    }
    let mut outs: u8 = 0;
    let mut rank: u16 = 0;
    while rank < 13
        invariant
            rank <= 13,
            outs == outs_below(rank_bits, rank),
            !is_straight(rank_bits),
        decreases 13 - rank,
    {
        proof {
            lemma_rank_bit(rank_bits, rank);
            lemma_outs_below_bound(rank_bits, rank);
        }
        if rank_bits & (1 << rank) != 0 {
            rank += 1;
            continue;
        }
        if check_straight(rank_bits | (1 << rank)) {
            outs += 4;
        }
        rank += 1;
    }
    outs
}

} // verus!
