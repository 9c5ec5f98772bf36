//! Turn-board hand bucketing: features of each two-card combination, the seeded
//! generator of the clustering, and the assignment of buckets to combinations.
use vstd::prelude::*;
use crate::card::{index_pair, index_to_card_pair, lemma_index_pair, Card};
use crate::hand::{
    all_cards, check_straight, count_rank, count_rank_of, count_straight_draw_outs, count_suit,
    count_suit_of, is_straight, rank_set, rank_set_of, six_cards, straight_draw_outs, suit_rank_set,
    suit_rank_set_of,
};

verus! {

/// Bucket id given to combinations that share a card with the board.
pub const BLOCKED_BUCKET: u16 = 0xffff;

/// Default number of clusters.
pub const DEFAULT_K: usize = 1000;

/// Rank of the better hole card of suit `s`, or -1 when neither hole card has that suit.
pub open spec fn hand_max_rank_in_suit(c1: u8, c2: u8, s: int) -> int {
    let a: int = if c1 % 4 == s { (c1 / 4) as int } else { -1 };
    let b: int = if c2 % 4 == s { (c2 / 4) as int } else { -1 };
    if a >= b { a } else { b }
}

/// Highest rank `<= r` whose card of suit `s` is not on the board, or -1.
pub open spec fn highest_open_rank(board: Seq<u8>, s: int, r: int) -> int
    decreases r + 1,
{
    if r < 0 {
        -1
    } else if !board.contains((4 * r + s) as u8) {
        r
    } else {
        highest_open_rank(board, s, r - 1)
    }
}

/// The hole cards hold suit `s` and exactly four of the six cards have it.
pub open spec fn flush_draw_in(c1: u8, c2: u8, board: [u8; 4], s: int) -> bool {
    count_suit(seq![c1, c2], s) > 0 && count_suit(six_cards(c1, c2, board), s) == 4
}

/// (has_flush_draw, is_nut_flush_draw, has_made_flush), counting only suits that the
/// hole cards contribute to.
pub open spec fn flush_features(c1: u8, c2: u8, board: [u8; 4]) -> (bool, bool, bool) {
    (
        exists|s: int| 0 <= s < 4 && #[trigger] flush_draw_in(c1, c2, board, s),
        exists|s: int|
            0 <= s < 4 && #[trigger] flush_draw_in(c1, c2, board, s) && hand_max_rank_in_suit(
                c1,
                c2,
                s,
            ) == highest_open_rank(board@, s, 12),
        exists|s: int|
            0 <= s < 4 && count_suit(seq![c1, c2], s) > 0 && #[trigger] count_suit(
                six_cards(c1, c2, board),
                s,
            ) >= 5,
    )
}

fn rank_card(r: u8, suit: u8) -> (c: Card)
    requires
        r <= 12,
        suit < 4,
    ensures
        c == (4 * r + suit) as u8,
{
    let c = (r << 2) | suit;
    assert((r << 2) | suit == (4 * r + suit) as u8) by (bit_vector)
        requires
            r <= 12,
            suit < 4,
    ;
    c
}

fn board_contains(board: &[Card; 4], card: Card) -> (r: bool)
    ensures
        r == board@.contains(card),
{
    let r = board[0] == card || board[1] == card || board[2] == card || board[3] == card;
    proof {
        if r {
            if board[0] == card {
                assert(board@[0] == card);
            } else if board[1] == card {
                assert(board@[1] == card);
            } else if board[2] == card {
                assert(board@[2] == card);
            } else {
                assert(board@[3] == card);
            }
        } else {
            assert forall|i: int| 0 <= i < board@.len() implies board@[i] != card by {}
        }
    }
    r
}

/// Flush features of a hand on a four-card board (see [`flush_features`]).
pub fn compute_flush_features(c1: Card, c2: Card, board: &[Card; 4]) -> (r: (bool, bool, bool))
    requires
        all_cards(six_cards(c1, c2, *board)),
    ensures
        r == flush_features(c1, c2, *board),
{
    let s1 = c1 % 4;
    let s2 = c2 % 4;
    let cards: [Card; 6] = [c1, c2, board[0], board[1], board[2], board[3]];
    let hole: [Card; 2] = [c1, c2];
    assert(cards@ =~= six_cards(c1, c2, *board));
    assert(hole@ =~= seq![c1, c2]);
    let ghost six = six_cards(c1, c2, *board);

    let mut has_flush_draw = false;
    let mut has_made_flush = false;
    let mut is_nut_flush_draw = false;

    let mut suit: u8 = 0;
    while suit < 4
        invariant
            suit <= 4,
            cards@ == six,
            six == six_cards(c1, c2, *board),
            hole@ == seq![c1, c2],
            s1 == c1 % 4,
            s2 == c2 % 4,
            has_flush_draw == exists|s: int| 0 <= s < suit && #[trigger] flush_draw_in(c1, c2, *board, s),
            is_nut_flush_draw == exists|s: int|
                0 <= s < suit && #[trigger] flush_draw_in(c1, c2, *board, s)
                    && hand_max_rank_in_suit(c1, c2, s) == highest_open_rank(board@, s, 12),
            has_made_flush == exists|s: int|
                0 <= s < suit && count_suit(seq![c1, c2], s) > 0 && #[trigger] count_suit(six, s) >= 5,
        decreases 4 - suit,
    {
        let in_hand = count_suit_of(&hole, suit);
        if in_hand == 0 {
            suit += 1;
            continue;
        }
        let total = count_suit_of(&cards, suit);
        if total >= 5 {
            has_made_flush = true;
        } else if total == 4 {
            has_flush_draw = true;

            // Nut flush draw: the hand holds the highest card of this suit not on the board
            let mut max_r: i8 = -1;
            if s1 == suit {
                max_r = if max_r >= (c1 / 4) as i8 { max_r } else { (c1 / 4) as i8 };
            }
            if s2 == suit {
                max_r = if max_r >= (c2 / 4) as i8 { max_r } else { (c2 / 4) as i8 };
            }
            assert(max_r == hand_max_rank_in_suit(c1, c2, suit as int));

            let mut r: i8 = 12;
            while r >= 0 && board_contains(board, rank_card(r as u8, suit))
                invariant
                    -1 <= r <= 12,
                    suit < 4,
                    highest_open_rank(board@, suit as int, 12) == highest_open_rank(
                        board@,
                        suit as int,
                        r as int,
                    ),
                decreases r + 1,
            {
                r -= 1;
            }
            let highest_non_board = r;
            assert(highest_non_board == highest_open_rank(board@, suit as int, 12));
            if max_r == highest_non_board {
                is_nut_flush_draw = true;
            }
        }
        proof {
            let ss = suit as int;
            if flush_draw_in(c1, c2, *board, ss) {
                assert(total == 4);
            }
        }
        suit += 1;
    }
    (has_flush_draw, is_nut_flush_draw, has_made_flush)
}


/// Number of ranks below `r` that appear at least `k` times among `cards`.
pub open spec fn ranks_at_least(cards: Seq<u8>, k: nat, r: int) -> nat
    decreases r,
{
    if r <= 0 {
        0
    } else {
        ranks_at_least(cards, k, r - 1) + if count_rank(cards, r - 1) >= k { 1nat } else { 0nat }
    }
}

/// Number of ranks below `r` that appear exactly `k` times among `cards`.
pub open spec fn ranks_exactly(cards: Seq<u8>, k: nat, r: int) -> nat
    decreases r,
{
    if r <= 0 {
        0
    } else {
        ranks_exactly(cards, k, r - 1) + if count_rank(cards, r - 1) == k { 1nat } else { 0nat }
    }
}

/// Some suit holds five or more of `cards`.
pub open spec fn has_flush(cards: Seq<u8>) -> bool {
    exists|s: int| 0 <= s < 4 && #[trigger] count_suit(cards, s) >= 5
}

/// Some suit holds five or more of `cards` and those cards make a straight.
pub open spec fn has_straight_flush(cards: Seq<u8>) -> bool {
    has_flush(cards) && is_straight(rank_set(cards)) && exists|s: int|
        0 <= s < 4 && #[trigger] count_suit(cards, s) >= 5 && is_straight(suit_rank_set(cards, s))
}

/// Made-hand category of six cards, in tenths: straight flush 10, quads 9, full house 8,
/// flush 7, straight 6, trips 5, two pair 4, one pair 2, high card 0.
pub open spec fn made_hand_category(cards: Seq<u8>) -> nat {
    let trips = ranks_at_least(cards, 3, 13);
    let pair_or_better = ranks_at_least(cards, 2, 13);
    let pairs = ranks_exactly(cards, 2, 13);
    if has_straight_flush(cards) {
        10
    } else if ranks_at_least(cards, 4, 13) > 0 {
        9
    } else if trips >= 1 && pair_or_better >= 2 {
        8
    } else if has_flush(cards) {
        7
    } else if is_straight(rank_set(cards)) {
        6
    } else if trips >= 1 {
        5
    } else if pairs >= 2 {
        4
    } else if pairs >= 1 {
        2
    } else {
        0
    }
}

proof fn lemma_rank_counters_bound(cards: Seq<u8>, r: int)
    requires
        0 <= r,
    ensures
        ranks_at_least(cards, 2, r) <= r,
        ranks_at_least(cards, 3, r) <= r,
        ranks_at_least(cards, 4, r) <= r,
        ranks_exactly(cards, 2, r) <= r,
    decreases r,
{
    if r > 0 {
        lemma_rank_counters_bound(cards, r - 1);
    }
}

/// Made-hand strength of two hole cards on a four-card board, as a category in tenths
/// (see [`made_hand_category`]); the features divide it by ten.
pub fn compute_made_hand_rank(c1: Card, c2: Card, board: &[Card; 4]) -> (r: u8)
    requires
        all_cards(six_cards(c1, c2, *board)),
    ensures
        r == made_hand_category(six_cards(c1, c2, *board)),
{
    let six: [Card; 6] = [c1, c2, board[0], board[1], board[2], board[3]];
    assert(six@ =~= six_cards(c1, c2, *board));
    let ghost cards = six@;

    // suits holding five or more cards
    let mut flush = false;
    let mut straight_flush = false;
    let rank_bits = rank_set_of(&six);
    let straight = check_straight(rank_bits);
    let mut suit: u8 = 0;
    while suit < 4
        invariant
            suit <= 4,
            cards == six@,
            crate::hand::all_cards(cards),
            straight == is_straight(rank_set(cards)),
            flush == exists|s: int| 0 <= s < suit && #[trigger] count_suit(cards, s) >= 5,
            straight_flush == exists|s: int|
                0 <= s < suit && #[trigger] count_suit(cards, s) >= 5 && is_straight(
                    suit_rank_set(cards, s),
                ),
        decreases 4 - suit,
    {
        if count_suit_of(&six, suit) >= 5 {
            flush = true;
            if check_straight(suit_rank_set_of(&six, suit)) {
                straight_flush = true;
            }
        }
        suit += 1;
    }
    if flush && straight && straight_flush {
        return 10;
    }

    let mut quads: u8 = 0;
    let mut trips_count: u8 = 0;
    let mut pair_or_better_count: u8 = 0;
    let mut pair_count: u8 = 0;
    let mut rank: u8 = 0;
    while rank < 13
        invariant
            rank <= 13,
            cards == six@,
            quads == ranks_at_least(cards, 4, rank as int),
            trips_count == ranks_at_least(cards, 3, rank as int),
            pair_or_better_count == ranks_at_least(cards, 2, rank as int),
            pair_count == ranks_exactly(cards, 2, rank as int),
        decreases 13 - rank,
    {
        proof {
            lemma_rank_counters_bound(cards, rank as int);
        }
        let n = count_rank_of(&six, rank);
        if n >= 4 {
            quads += 1;
        }
        if n >= 3 {
            trips_count += 1;
        }
        if n >= 2 {
            pair_or_better_count += 1;
        }
        if n == 2 {
            pair_count += 1;
        }
        rank += 1;
    }

    if quads > 0 {
        return 9;
    }
    if trips_count >= 1 && pair_or_better_count >= 2 {
        return 8;
    }
    if flush {
        return 7;
    }
    if straight {
        return 6;
    }
    if trips_count >= 1 {
        return 5;
    }
    if pair_count >= 2 {
        return 4;
    }
    if pair_count >= 1 {
        return 2;
    }
    0
}


/// Seed fold of the board cards: `seed = seed * 53 + card + 1`, modulo 2^64.
pub open spec fn seed_fold(cards: Seq<u8>) -> u64
    decreases cards.len(),
{
    if cards.len() == 0 {
        0
    } else {
        seed_fold(cards.drop_last()).wrapping_mul(53).wrapping_add((cards.last() as u64 + 1) as u64)
    }
}

/// Deterministic, never-zero seed derived from the board.
pub fn board_seed(board: &[Card; 4]) -> (r: u64)
    ensures
        r == if seed_fold(board@) == 0 { 1 } else { seed_fold(board@) },
        r != 0,
{
    let mut seed: u64 = 0;
    let mut i: usize = 0;
    while i < 4
        invariant
            i <= 4,
            seed == seed_fold(board@.take(i as int)),
        decreases 4 - i,
    {
        assert(board@.take(i + 1).drop_last() =~= board@.take(i as int));
        seed = seed.wrapping_mul(53).wrapping_add(board[i] as u64 + 1);
        i += 1;
    }
    assert(board@.take(4) =~= board@);
    if seed == 0 {
        seed = 1;
    }
    seed
}

/// One xorshift64 step (shifts 13, 7, 17).
pub open spec fn xorshift_step(x: u64) -> u64 {
    let a = x ^ (x << 13u64);
    let b = a ^ (a >> 7u64);
    b ^ (b << 17u64)
}

/// Advances the xorshift64 state and returns the new state.
pub fn xorshift64(state: &mut u64) -> (r: u64)
    ensures
        r == xorshift_step(*old(state)),
        *final(state) == r,
{
    let mut x = *state;
    x ^= x << 13;
    x ^= x >> 7;
    x ^= x << 17;
    *state = x;
    x
}

/// A non-zero xorshift64 state stays non-zero, so the generator never gets stuck.
pub proof fn lemma_xorshift_nonzero(x: u64)
    requires
        x != 0,
    ensures
        xorshift_step(x) != 0,
{
    assert(x != 0 ==> (x ^ (x << 13u64)) != 0) by (bit_vector);
    let a = x ^ (x << 13u64);
    assert(a != 0 ==> (a ^ (a >> 7u64)) != 0) by (bit_vector);
    let b = a ^ (a >> 7u64);
    assert(b != 0 ==> (b ^ (b << 17u64)) != 0) by (bit_vector);
}


/// The combination with index `idx` shares a card with the board.
pub open spec fn combo_blocked(board: Seq<u8>, idx: nat) -> bool {
    board.contains(index_pair(idx).0 as u8) || board.contains(index_pair(idx).1 as u8)
}

/// Number of combinations with index below `n` that the board does not block.
pub open spec fn valid_before(board: Seq<u8>, n: nat) -> nat
    decreases n,
{
    if n == 0 {
        0
    } else {
        valid_before(board, (n - 1) as nat) + if combo_blocked(board, (n - 1) as nat) {
            0nat
        } else {
            1nat
        }
    }
}

proof fn lemma_valid_before_bound(board: Seq<u8>, n: nat)
    ensures
        valid_before(board, n) <= n,
    decreases n,
{
    if n > 0 {
        lemma_valid_before_bound(board, (n - 1) as nat);
    }
}

proof fn lemma_valid_before_monotone(board: Seq<u8>, a: nat, b: nat)
    requires
        a <= b,
    ensures
        valid_before(board, a) <= valid_before(board, b),
        a < b && !combo_blocked(board, a) ==> valid_before(board, a) < valid_before(board, b),
    decreases b - a,
{
    if a < b {
        lemma_valid_before_monotone(board, a, (b - 1) as nat);
    }
}

/// Result of hand bucketing: maps each of the 1326 combinations to a bucket id.
pub struct BucketMapping {
    /// Bucket of each combination, or [`BLOCKED_BUCKET`] when the board blocks it.
    pub hand_to_bucket: [u16; 1326],
    /// Number of clusters actually used.
    pub k: usize,
    /// Number of combinations the board does not block.
    pub num_valid: usize,
}

fn combo_is_blocked(board: &[Card; 4], idx: usize) -> (r: bool)
    requires
        idx < 1326,
    ensures
        r == combo_blocked(board@, idx as nat),
{
    let (c1, c2) = index_to_card_pair(idx);
    board_contains(board, c1) || board_contains(board, c2)
}

/// Indices, in increasing order, of the combinations the board does not block; the
/// j-th entry is the combination whose valid rank is j.
pub fn valid_combo_indices(board: &[Card; 4]) -> (r: Vec<u16>)
    ensures
        r.len() == valid_before(board@, 1326),
        forall|i: nat| i < 1326 && !combo_blocked(board@, i) ==> r@[valid_before(board@, i) as int] == i,
        forall|j: int| 0 <= j < r.len() ==> r@[j] < 1326 && !combo_blocked(board@, r@[j] as nat),
{
    let mut r: Vec<u16> = Vec::new();
    let mut idx: usize = 0;
    while idx < 1326
        invariant
            idx <= 1326,
            r.len() == valid_before(board@, idx as nat),
            forall|i: nat| i < idx && !combo_blocked(board@, i) ==> r@[valid_before(board@, i) as int] == i,
            forall|j: int| 0 <= j < r.len() ==> r@[j] < idx && !combo_blocked(board@, r@[j] as nat),
        decreases 1326 - idx,
    {
        proof {
            assert forall|i: nat| i < idx && !combo_blocked(board@, i) implies valid_before(board@, i) < r.len() by {
                lemma_valid_before_monotone(board@, i, idx as nat);
            }
        }
        if !combo_is_blocked(board, idx) {
            r.push(idx as u16);
        }
        idx += 1;
    }
    r
}

/// Bucket of the combination `idx` (see [`compute_buckets`]).
pub open spec fn bucket_of(board: Seq<u8>, k: nat, assignments: Seq<u16>, idx: nat) -> u16 {
    let nv = valid_before(board, 1326);
    let actual_k = if k <= nv { k } else { nv };
    if combo_blocked(board, idx) || actual_k == 0 {
        BLOCKED_BUCKET
    } else if actual_k >= nv {
        valid_before(board, idx) as u16
    } else {
        assignments[valid_before(board, idx) as int]
    }
}

/// `r` is the bucketing of `board` with `k` clusters and the given clustering of the
/// valid combinations (see [`compute_buckets`]).
pub open spec fn is_bucketing(r: BucketMapping, board: Seq<u8>, k: nat, assignments: Seq<u16>) -> bool {
    let nv = valid_before(board, 1326);
    let actual_k = if k <= nv { k } else { nv };
    &&& r.num_valid == nv
    &&& r.k == actual_k
    &&& forall|i: int|
        0 <= i < 1326 ==> #[trigger] r.hand_to_bucket@[i] == bucket_of(board, k, assignments, i as nat)
}

/// The clustering labels each valid combination with one of the `k` clusters.
pub open spec fn labels_below(assignments: Seq<u16>, k: nat) -> bool {
    forall|j: int| 0 <= j < assignments.len() ==> #[trigger] assignments[j] < k
}

/// Assigns every combination a bucket: blocked combinations get [`BLOCKED_BUCKET`]; `k`
/// is capped at the number of valid combinations; when it is not smaller, every valid
/// combination gets its own bucket in index order; otherwise the j-th valid combination
/// (in index order) gets `assignments[j]`, the clustering of the valid combinations'
/// features into `k` groups. With `k == 0` no combination gets a bucket. Every bucket
/// given is below the number of clusters used.
pub fn compute_buckets(board: &[Card; 4], k: usize, assignments: &[u16]) -> (r: BucketMapping)
    requires
        ({
            let nv = valid_before(board@, 1326);
            0 < k < nv ==> assignments.len() == nv && labels_below(assignments@, k as nat)
        }),
    ensures
        is_bucketing(r, board@, k as nat, assignments@),
        forall|i: int|
            0 <= i < 1326 ==> (#[trigger] r.hand_to_bucket@[i] == BLOCKED_BUCKET <==> (combo_blocked(
                board@,
                i as nat,
            ) || r.k == 0)),
        forall|i: int|
            0 <= i < 1326 && #[trigger] r.hand_to_bucket@[i] != BLOCKED_BUCKET ==> r.hand_to_bucket@[i]
                < r.k,
{
    let valid_indices = valid_combo_indices(board);
    let num_valid = valid_indices.len();
    let actual_k = if k < num_valid { k } else { num_valid };
    let ghost nv = valid_before(board@, 1326);

    let mut hand_to_bucket = [BLOCKED_BUCKET; 1326];
    assert(forall|i: int| 0 <= i < 1326 ==> hand_to_bucket@[i] == BLOCKED_BUCKET);

    if actual_k == 0 {
        return BucketMapping { hand_to_bucket, k: 0, num_valid };
    }

    let mut idx: usize = 0;
    let mut rank: usize = 0;
    while idx < 1326
        invariant
            idx <= 1326,
            num_valid == nv,
            0 < actual_k <= nv,
            actual_k == if k <= nv { k as nat } else { nv },
            actual_k < nv ==> assignments.len() == nv,
            actual_k < nv ==> labels_below(assignments@, k as nat),
            rank == valid_before(board@, idx as nat),
            nv == valid_before(board@, 1326),
            forall|i: int| 0 <= i < idx ==> hand_to_bucket@[i] == bucket_of(board@, k as nat, assignments@, i as nat),
            forall|i: int| idx <= i < 1326 ==> hand_to_bucket@[i] == BLOCKED_BUCKET,
        decreases 1326 - idx,
    {
        proof {
            lemma_valid_before_bound(board@, idx as nat);
            lemma_valid_before_monotone(board@, idx as nat, 1326);
        }
        if !combo_is_blocked(board, idx) {
            let b = if actual_k >= num_valid { rank as u16 } else { assignments[rank] };
            hand_to_bucket[idx] = b;
            rank += 1;
        }
        idx += 1;
    }
    let r = BucketMapping { hand_to_bucket, k: actual_k, num_valid };
    proof {
        lemma_valid_before_bound(board@, 1326);
        assert forall|i: int| 0 <= i < 1326 && !combo_blocked(board@, i as nat) implies #[trigger] r.hand_to_bucket@[i]
            < r.k by {
            lemma_valid_before_monotone(board@, i as nat, 1326);
            if actual_k < nv {
                assert(assignments@[valid_before(board@, i as nat) as int] < k);
            }
        }
    }
    r
}

proof fn lemma_valid_before_onto(board: Seq<u8>, n: nat, r: nat)
    requires
        r < valid_before(board, n),
    ensures
        exists|i: nat| i < n && !combo_blocked(board, i) && #[trigger] valid_before(board, i) == r,
    decreases n,
{
    let m = (n - 1) as nat;
    if r < valid_before(board, m) {
        lemma_valid_before_onto(board, m, r);
        let i = choose|i: nat| i < m && !combo_blocked(board, i) && #[trigger] valid_before(board, i) == r;
        assert(i < n);
    } else {
        assert(!combo_blocked(board, m) && valid_before(board, m) == r);
    }
}

/// Law: the bucketing is fixed by the board, `k` and the clustering: two results of
/// [`compute_buckets`] on the same arguments are equal.
pub proof fn lemma_bucketing_determined(
    r1: BucketMapping,
    r2: BucketMapping,
    board: Seq<u8>,
    k: nat,
    assignments: Seq<u16>,
)
    requires
        is_bucketing(r1, board, k, assignments),
        is_bucketing(r2, board, k, assignments),
    ensures
        r1 == r2,
{
    assert(r1.hand_to_bucket =~= r2.hand_to_bucket);
}

/// Some valid combination has bucket `b`.
pub open spec fn bucket_used(board: Seq<u8>, k: nat, assignments: Seq<u16>, b: nat) -> bool {
    exists|i: nat| i < 1326 && !combo_blocked(board, i) && #[trigger] bucket_of(board, k, assignments, i) == b
}

/// Law: when `k` is at least the number `nv` of valid combinations, every valid
/// combination gets a bucket of its own, and the buckets used are exactly `0..nv`.
pub proof fn lemma_one_bucket_per_hand(board: Seq<u8>, k: nat, assignments: Seq<u16>)
    requires
        k >= valid_before(board, 1326),
    ensures
        forall|i: nat, j: nat|
            i < j < 1326 && !combo_blocked(board, i) && !combo_blocked(board, j) ==> #[trigger] bucket_of(
                board,
                k,
                assignments,
                i,
            ) != #[trigger] bucket_of(board, k, assignments, j),
        forall|i: nat|
            i < 1326 && !combo_blocked(board, i) ==> #[trigger] bucket_of(board, k, assignments, i)
                < valid_before(board, 1326),
        forall|b: nat| b < valid_before(board, 1326) ==> #[trigger] bucket_used(board, k, assignments, b),
{
    let nv = valid_before(board, 1326);
    lemma_valid_before_bound(board, 1326);
    assert forall|i: nat, j: nat|
        i < j < 1326 && !combo_blocked(board, i) && !combo_blocked(board, j) implies #[trigger] bucket_of(
            board,
            k,
            assignments,
            i,
        ) != #[trigger] bucket_of(board, k, assignments, j) by {
        lemma_valid_before_monotone(board, i, j);
        lemma_valid_before_monotone(board, j, 1326);
    }
    assert forall|i: nat| i < 1326 && !combo_blocked(board, i) implies #[trigger] bucket_of(
        board,
        k,
        assignments,
        i,
    ) < nv by {
        lemma_valid_before_monotone(board, i, 1326);
    }
    assert forall|b: nat| b < nv implies #[trigger] bucket_used(board, k, assignments, b) by {
        lemma_valid_before_onto(board, 1326, b);
        let i = choose|i: nat| i < 1326 && !combo_blocked(board, i) && #[trigger] valid_before(board, i) == b;
        lemma_valid_before_monotone(board, i, 1326);
        assert(bucket_of(board, k, assignments, i) == b);
    }
}

/// Integer features of a two-card combination on a turn board, from which the
/// clustering features are scaled.
#[derive(Clone, Copy, Debug, PartialEq, Eq, Structural)]
pub struct ComboFeatures {
    /// Made-hand category in tenths (see [`compute_made_hand_rank`]).
    pub made_hand_rank: u8,
    pub is_pair: bool,
    pub is_suited: bool,
    /// Distance between the two ranks.
    pub rank_gap: u8,
    /// Board cards of the first and of the second hole card's suit.
    pub suit_match_c1: u8,
    pub suit_match_c2: u8,
    /// Board cards whose rank is one of the hole cards' ranks.
    pub pairs_with_board: u8,
    /// Hole cards ranked above every board card.
    pub overcards: u8,
    pub has_flush_draw: bool,
    pub is_nut_flush_draw: bool,
    pub has_made_flush: bool,
    /// Outs to a straight (see [`count_straight_draw_outs`]).
    pub straight_draw_outs: u8,
    /// The six cards hold a straight.
    pub has_made_straight: bool,
}

/// Highest rank on the board.
pub open spec fn max_board_rank(board: [u8; 4]) -> int {
    let a = board[0] / 4;
    let b = board[1] / 4;
    let c = board[2] / 4;
    let d = board[3] / 4;
    let ab = if a >= b { a } else { b };
    let cd = if c >= d { c } else { d };
    if ab >= cd { ab as int } else { cd as int }
}

/// The features of the combination `(c1, c2)` on `board`.
pub open spec fn combo_features_spec(c1: u8, c2: u8, board: [u8; 4]) -> ComboFeatures {
    let r1 = (c1 / 4) as int;
    let r2 = (c2 / 4) as int;
    let s1 = (c1 % 4) as int;
    let s2 = (c2 % 4) as int;
    let ff = flush_features(c1, c2, board);
    ComboFeatures {
        made_hand_rank: made_hand_category(six_cards(c1, c2, board)) as u8,
        is_pair: r1 == r2,
        is_suited: s1 == s2,
        rank_gap: (if r1 >= r2 { r1 - r2 } else { r2 - r1 }) as u8,
        suit_match_c1: count_suit(board@, s1) as u8,
        suit_match_c2: count_suit(board@, s2) as u8,
        pairs_with_board: (if r1 == r2 {
            count_rank(board@, r1)
        } else {
            count_rank(board@, r1) + count_rank(board@, r2)
        }) as u8,
        overcards: ((if r1 > max_board_rank(board) { 1int } else { 0 }) + (if r2 > max_board_rank(
            board,
        ) { 1int } else { 0 })) as u8,
        has_flush_draw: ff.0,
        is_nut_flush_draw: ff.1,
        has_made_flush: ff.2,
        straight_draw_outs: straight_draw_outs(rank_set(six_cards(c1, c2, board))) as u8,
        has_made_straight: is_straight(rank_set(six_cards(c1, c2, board))),
    }
}

/// Law: the overcard count is the number of hole cards, of the two, whose rank is above
/// the rank of every board card; so it does not depend on the order of the hole cards.
pub proof fn lemma_overcards_counts_both_hole_cards(c1: u8, c2: u8, board: [u8; 4])
    ensures
        combo_features_spec(c1, c2, board).overcards == (if forall|i: int|
            0 <= i < 4 ==> c1 / 4 > #[trigger] board[i] / 4 { 1int } else { 0int }) + (if forall|
            i: int,
        | 0 <= i < 4 ==> c2 / 4 > #[trigger] board[i] / 4 { 1int } else { 0int }),
        combo_features_spec(c1, c2, board).overcards == combo_features_spec(
            c2,
            c1,
            board,
        ).overcards,
{
    let m = max_board_rank(board);
    assert(forall|i: int| 0 <= i < 4 ==> #[trigger] board[i] / 4 <= m);
    assert(exists|i: int| 0 <= i < 4 && #[trigger] board[i] / 4 == m) by {
        if board[0] / 4 == m {
            assert(board[0int] / 4 == m);
        } else if board[1] / 4 == m {
            assert(board[1int] / 4 == m);
        } else if board[2] / 4 == m {
            assert(board[2int] / 4 == m);
        } else {
            assert(board[3int] / 4 == m);
        }
    }
}

/// The integer features of the combination `(c1, c2)` on `board` (see
/// [`combo_features_spec`]).
pub fn combo_features(c1: Card, c2: Card, board: &[Card; 4]) -> (r: ComboFeatures)
    requires
        all_cards(six_cards(c1, c2, *board)),
    ensures
        r == combo_features_spec(c1, c2, *board),
{
    assert(forall|x: u8| #[trigger] (x >> 2u8) == x / 4 && (x & 3u8) == x % 4) by (bit_vector);
    let r1 = c1 >> 2;
    let r2 = c2 >> 2;
    let s1 = c1 & 3;
    let s2 = c2 & 3;
    let (flush_draw, nut_flush_draw, made_flush) = compute_flush_features(c1, c2, board);
    let bc: [Card; 4] = *board;
    let suit_match_c1 = count_suit_of(&bc, s1);
    let suit_match_c2 = count_suit_of(&bc, s2);
    let pairs = if r1 == r2 {
        count_rank_of(&bc, r1)
    } else {
        count_rank_of(&bc, r1) + count_rank_of(&bc, r2)
    };
    let b0 = board[0] >> 2;
    let b1 = board[1] >> 2;
    let b2 = board[2] >> 2;
    let b3 = board[3] >> 2;
    let m01 = if b0 >= b1 { b0 } else { b1 };
    let m23 = if b2 >= b3 { b2 } else { b3 };
    let max_rank = if m01 >= m23 { m01 } else { m23 };
    let overcards: u8 = (if r1 > max_rank { 1 } else { 0 }) + (if r2 > max_rank { 1 } else { 0 });
    let six: [Card; 6] = [c1, c2, board[0], board[1], board[2], board[3]];
    assert(six@ =~= six_cards(c1, c2, *board));
    let made_straight = check_straight(rank_set_of(&six));
    ComboFeatures {
        made_hand_rank: compute_made_hand_rank(c1, c2, board),
        is_pair: r1 == r2,
        is_suited: s1 == s2,
        rank_gap: if r1 >= r2 { r1 - r2 } else { r2 - r1 },
        suit_match_c1,
        suit_match_c2,
        pairs_with_board: pairs,
        overcards,
        has_flush_draw: flush_draw,
        is_nut_flush_draw: nut_flush_draw,
        has_made_flush: made_flush,
        straight_draw_outs: count_straight_draw_outs(c1, c2, board),
        has_made_straight: made_straight,
    }
}

} // verus!
