//! Turn-boundary oracle: a table of precomputed turn matrices keyed by boundary amount
//! and turn card, and the mappings from flop hand indices to turn hand indices.
use vstd::prelude::*;
use crate::card::Card;
use crate::game::PostFlopGame;

verus! {

/// Slots per boundary amount in the oracle table: one per card of the deck.
pub const CARDS_PER_AMOUNT: usize = 52;

/// Turn hand index given to a hand that holds the dealt turn card.
pub const BLOCKED_TURN_INDEX: usize = usize::MAX;

/// What the oracle reads of a precomputed turn counterfactual-value matrix.
#[derive(Clone, Copy, Debug, PartialEq, Eq)]
pub struct TurnMatrix {
    /// Number of private hands of each player once the turn card is dealt.
    pub num_private_hands: [usize; 2],
    /// Bytes taken by the matrix.
    pub memory_bytes: usize,
}

/// `c` is one of the flop cards.
pub open spec fn on_board(flop: [Card; 3], c: int) -> bool {
    c == flop[0] as int || c == flop[1] as int || c == flop[2] as int
}

/// Number of cards below `n` that are not on the flop.
pub open spec fn cards_off_board(flop: [Card; 3], n: int) -> nat
    decreases n,
{
    if n <= 0 {
        0
    } else {
        cards_off_board(flop, n - 1) + if on_board(flop, n - 1) { 0nat } else { 1nat }
    }
}

/// Total bytes of the matrices present in `entries`.
pub open spec fn sum_memory(entries: Seq<Option<TurnMatrix>>) -> nat
    decreases entries.len(),
{
    if entries.len() == 0 {
        0
    } else {
        sum_memory(entries.drop_last()) + match entries.last() {
            Some(m) => m.memory_bytes as nat,
            None => 0nat,
        }
    }
}

/// Number of slots of `entries` that hold a matrix.
pub open spec fn count_present(entries: Seq<Option<TurnMatrix>>) -> nat
    decreases entries.len(),
{
    if entries.len() == 0 {
        0
    } else {
        count_present(entries.drop_last()) + if entries.last() is Some { 1nat } else { 0nat }
    }
}

/// Index of the first occurrence of `x` in `s` at or after `i`.
pub open spec fn find_from(s: Seq<i32>, x: i32, i: int) -> Option<int>
    decreases s.len() - i,
{
    if i < 0 || i >= s.len() {
        None
    } else if s[i] == x {
        Some(i)
    } else {
        find_from(s, x, i + 1)
    }
}

/// Slot of the table that `assemble` fills for amount index `i` and card `c`: empty for
/// a flop card, else the matrix solved for that amount and card, matrices being solved
/// amount by amount and, within an amount, card by card.
pub open spec fn assembled_slot(flop: [Card; 3], matrices: Seq<TurnMatrix>, i: int, c: int) -> Option<
    TurnMatrix,
> {
    if on_board(flop, c) {
        None
    } else {
        Some(matrices[i * cards_off_board(flop, 52) + cards_off_board(flop, c)])
    }
}

/// Pot and stack of the turn game solved for a boundary amount: both players have put
/// `amount` in; a stack that would not be positive is taken as 1.
pub open spec fn boundary_pot_and_stack_spec(starting_pot: int, effective_stack: int, amount: int) -> (
    int,
    int,
) {
    let stack = effective_stack - amount;
    (starting_pot + 2 * amount, if stack > 0 { stack } else { 1 })
}

/// Pot and stack of the turn game solved for a boundary amount.
pub fn boundary_pot_and_stack(starting_pot: i32, effective_stack: i32, amount: i32) -> (r: (i32, i32))
    requires
        i32::MIN <= 2 * amount <= i32::MAX,
        i32::MIN <= starting_pot + 2 * amount <= i32::MAX,
        i32::MIN <= effective_stack - amount <= i32::MAX,
    ensures
        (r.0 as int, r.1 as int) == boundary_pot_and_stack_spec(
            starting_pot as int,
            effective_stack as int,
            amount as int,
        ),
{
    let pot = starting_pot + 2 * amount;
    let stack = effective_stack - amount;
    let actual_stack = if stack > 0 { stack } else { 1 };
    (pot, actual_stack)
}

proof fn lemma_cards_off_board_mono(flop: [Card; 3], a: int, b: int)
    requires
        a <= b,
    ensures
        cards_off_board(flop, a) <= cards_off_board(flop, b),
        cards_off_board(flop, b) <= cards_off_board(flop, a) + (if b > a { b - a } else { 0 }),
    decreases b - a,
{
    if a < b {
        lemma_cards_off_board_mono(flop, a, b - 1);
    }
}

/// Precomputed turn matrices for every (boundary amount, turn card) pair of one flop.
pub struct OracleLookupTable {
    /// Flop cards the table was built for.
    flop: [Card; 3],
    /// Distinct pot contributions at the flop-to-turn boundary.
    boundary_amounts: Vec<i32>,
    /// Slot `amount_index * 52 + card`; empty for cards on the flop.
    entries: Vec<Option<TurnMatrix>>,
    /// Starting pot used to solve the turn games.
    starting_pot: i32,
    /// Effective stack used to solve the turn games.
    effective_stack: i32,
}

impl OracleLookupTable {
    pub closed spec fn spec_flop(&self) -> [Card; 3] {
        self.flop
    }

    pub closed spec fn spec_boundary_amounts(&self) -> Seq<i32> {
        self.boundary_amounts@
    }

    pub closed spec fn spec_entries(&self) -> Seq<Option<TurnMatrix>> {
        self.entries@
    }

    pub closed spec fn spec_starting_pot(&self) -> i32 {
        self.starting_pot
    }

    pub closed spec fn spec_effective_stack(&self) -> i32 {
        self.effective_stack
    }

    /// Lays out the matrices solved for each boundary amount and each turn card into the
    /// table: `matrices` holds, amount by amount and within an amount card by card, one
    /// matrix per card that is not on the flop.
    pub fn assemble(
        flop: [Card; 3],
        boundary_amounts: Vec<i32>,
        matrices: Vec<TurnMatrix>,
        starting_pot: i32,
        effective_stack: i32,
    ) -> (r: Self)
        requires
            boundary_amounts@.len() * 52 <= usize::MAX,
            matrices@.len() == boundary_amounts@.len() * cards_off_board(flop, 52),
        ensures
            r.spec_flop() == flop,
            r.spec_boundary_amounts() == boundary_amounts@,
            r.spec_starting_pot() == starting_pot,
            r.spec_effective_stack() == effective_stack,
            r.spec_entries().len() == boundary_amounts@.len() * 52,
            count_present(r.spec_entries()) == boundary_amounts@.len() * cards_off_board(flop, 52),
            flop[0] < 52 && flop[1] < 52 && flop[2] < 52 && flop[0] != flop[1] && flop[0] != flop[2]
                && flop[1] != flop[2] ==> count_present(r.spec_entries()) == boundary_amounts@.len()
                * 49,
            forall|i: int, c: int|
                0 <= i < boundary_amounts@.len() && 0 <= c < 52 ==> #[trigger] r.spec_entries()[i
                    * 52 + c] == assembled_slot(flop, matrices@, i, c),
    {
        let n = boundary_amounts.len();
        let num_matrices = matrices.len();
        let ghost nt = cards_off_board(flop, 52);
        let mut entries: Vec<Option<TurnMatrix>> = Vec::new();
        let mut m: usize = 0;
        let mut amount_idx: usize = 0;
        proof {
            lemma_cards_off_board_mono(flop, 0, 52);
        }
        while amount_idx < n
            invariant
                n == boundary_amounts@.len(),
                n * 52 <= usize::MAX,
                matrices@.len() == n * nt,
                matrices@.len() == num_matrices,
                nt == cards_off_board(flop, 52),
                nt <= 52,
                amount_idx <= n,
                entries@.len() == amount_idx * 52,
                count_present(entries@) == amount_idx * nt,
                m == amount_idx * nt,
                forall|i: int, c: int|
                    0 <= i < amount_idx && 0 <= c < 52 ==> #[trigger] entries@[i * 52 + c]
                        == assembled_slot(flop, matrices@, i, c),
            decreases n - amount_idx,
        {
            let mut card: u8 = 0;
            let ghost start = entries@.len();
            proof {
                assert(amount_idx * nt + nt <= n * nt) by (nonlinear_arith)
                    requires
                        amount_idx < n,
                ;
            }
            while card < 52
                invariant
                    n == boundary_amounts@.len(),
                    n * 52 <= usize::MAX,
                    matrices@.len() == n * nt,
                    matrices@.len() == num_matrices,
                    nt == cards_off_board(flop, 52),
                    nt <= 52,
                    amount_idx < n,
                    start == amount_idx * 52,
                    card <= 52,
                    entries@.len() == start + card,
                    m == amount_idx * nt + cards_off_board(flop, card as int),
                    count_present(entries@) == m,
                    amount_idx * nt + nt <= n * nt,
                    forall|i: int, c: int|
                        0 <= i < amount_idx && 0 <= c < 52 ==> #[trigger] entries@[i * 52 + c]
                            == assembled_slot(flop, matrices@, i, c),
                    forall|c: int|
                        0 <= c < card ==> #[trigger] entries@[start + c] == assembled_slot(
                            flop,
                            matrices@,
                            amount_idx as int,
                            c,
                        ),
                decreases 52 - card,
            {
                proof {
                    lemma_cards_off_board_mono(flop, card as int + 1, 52);
                }
                let ghost before = entries@;
                if card == flop[0] || card == flop[1] || card == flop[2] {
                    entries.push(None);
                } else {
                    entries.push(Some(matrices[m]));
                    m = m + 1;
                }
                assert(entries@.drop_last() =~= before);
                card = card + 1;
            }
            proof {
                assert forall|i: int, c: int|
                    0 <= i < amount_idx + 1 && 0 <= c < 52 implies #[trigger] entries@[i * 52 + c]
                        == assembled_slot(flop, matrices@, i, c) by {
                    if i == amount_idx {
                        assert(i * 52 + c == start + c);
                    }
                }
                assert((amount_idx + 1) * 52 == amount_idx * 52 + 52) by (nonlinear_arith);
                assert((amount_idx + 1) * nt == amount_idx * nt + nt) by (nonlinear_arith);
            }
            amount_idx = amount_idx + 1;
        }
        proof {
            if flop[0] < 52 && flop[1] < 52 && flop[2] < 52 && flop[0] != flop[1] && flop[0]
                != flop[2] && flop[1] != flop[2] {
                lemma_num_turn_cards(flop);
            }
        }
        OracleLookupTable { flop, boundary_amounts, entries, starting_pot, effective_stack }
    }

    /// Total bytes taken by the matrices of the table.
    pub fn matrix_memory_bytes(&self) -> (r: usize)
        requires
            sum_memory(self.spec_entries()) <= usize::MAX,
        ensures
            r == sum_memory(self.spec_entries()),
    {
        let mut total: usize = 0;
        let mut i: usize = 0;
        while i < self.entries.len()
            invariant
                i <= self.entries@.len(),
                total == sum_memory(self.entries@.take(i as int)),
                sum_memory(self.entries@) <= usize::MAX,
            decreases self.entries@.len() - i,
        {
            proof {
                assert(self.entries@.take(i + 1).drop_last() =~= self.entries@.take(i as int));
                lemma_sum_memory_prefix(self.entries@, i + 1);
            }
            match &self.entries[i] {
                Some(m) => {
                    total = total + m.memory_bytes;
                },
                None => {},
            }
            i = i + 1;
        }
        assert(self.entries@.take(i as int) =~= self.entries@);
        total
    }

    /// The flop cards the table was built for.
    pub fn flop(&self) -> (r: [Card; 3])
        ensures
            r == self.spec_flop(),
    {
        self.flop
    }

    /// The boundary amounts, in table order.
    pub fn boundary_amounts(&self) -> (r: &[i32])
        ensures
            r@ == self.spec_boundary_amounts(),
    {
        self.boundary_amounts.as_slice()
    }

    /// Number of slots that hold a matrix.
    pub fn num_entries(&self) -> (r: usize)
        ensures
            r == count_present(self.spec_entries()),
    {
        let mut count: usize = 0;
        let mut i: usize = 0;
        while i < self.entries.len()
            invariant
                i <= self.entries@.len(),
                count == count_present(self.entries@.take(i as int)),
                count <= i,
            decreases self.entries@.len() - i,
        {
            proof {
                assert(self.entries@.take(i + 1).drop_last() =~= self.entries@.take(i as int));
            }
            if self.entries[i].is_some() {
                count = count + 1;
            }
            i = i + 1;
        }
        assert(self.entries@.take(i as int) =~= self.entries@);
        count
    }

    /// The matrix for a boundary amount and a turn card: the slot of the first
    /// occurrence of `amount` among the boundary amounts, or `None` when `amount` is
    /// not one of them.
    pub fn get(&self, amount: i32, card: Card) -> (r: Option<&TurnMatrix>)
        requires
            find_from(self.spec_boundary_amounts(), amount, 0) matches Some(i) ==> i * 52 + card
                < self.spec_entries().len(),
        ensures
            match find_from(self.spec_boundary_amounts(), amount, 0) {
                Some(i) => match r {
                    Some(m) => self.spec_entries()[i * 52 + card] == Some(*m),
                    None => self.spec_entries()[i * 52 + card] is None,
                },
                None => r is None,
            },
    {
        let mut idx: usize = 0;
        while idx < self.boundary_amounts.len()
            invariant
                idx <= self.boundary_amounts@.len(),
                find_from(self.boundary_amounts@, amount, 0) matches Some(i) ==> i * 52 + card
                    < self.entries@.len(),
                find_from(self.boundary_amounts@, amount, 0) == find_from(
                    self.boundary_amounts@,
                    amount,
                    idx as int,
                ),
            decreases self.boundary_amounts@.len() - idx,
        {
            if self.boundary_amounts[idx] == amount {
                assert(find_from(self.boundary_amounts@, amount, idx as int) == Some(idx as int));
                let num_slots = self.entries.len();
                let slot = idx * 52 + card as usize;
                return self.entries[slot].as_ref();
            }
            idx = idx + 1;
        }
        None
    }
}

proof fn lemma_sum_memory_prefix(entries: Seq<Option<TurnMatrix>>, n: int)
    requires
        0 <= n <= entries.len(),
    ensures
        sum_memory(entries.take(n)) <= sum_memory(entries),
    decreases entries.len() - n,
{
    if n < entries.len() {
        lemma_sum_memory_prefix(entries, n + 1);
        assert(entries.take(n + 1).drop_last() =~= entries.take(n));
    } else {
        assert(entries.take(n) =~= entries);
    }
}

/// `hand` holds `card`.
pub open spec fn holds_card(hand: (Card, Card), card: int) -> bool {
    hand.0 as int == card || hand.1 as int == card
}

/// Number of hands among the first `n` that do not hold `card`.
pub open spec fn hands_without(hands: Seq<(Card, Card)>, card: int, n: int) -> nat
    decreases n,
{
    if n <= 0 {
        0
    } else {
        hands_without(hands, card, n - 1) + if holds_card(hands[n - 1], card) {
            0nat
        } else {
            1nat
        }
    }
}

/// Turn hand index of flop hand `i` once `card` is dealt: the hands that hold the card
/// are dropped, and the others keep their order.
pub open spec fn turn_slot(hands: Seq<(Card, Card)>, card: int, i: int) -> usize {
    if holds_card(hands[i], card) {
        BLOCKED_TURN_INDEX
    } else {
        hands_without(hands, card, i) as usize
    }
}

/// Turn hand index of every flop hand once `card` is dealt.
pub open spec fn turn_mapping(hands: Seq<(Card, Card)>, card: int) -> Seq<usize> {
    Seq::new(hands.len(), |i: int| turn_slot(hands, card, i))
}

proof fn lemma_hands_without_mono(hands: Seq<(Card, Card)>, card: int, a: int, b: int)
    requires
        0 <= a <= b,
    ensures
        hands_without(hands, card, a) <= hands_without(hands, card, b),
        hands_without(hands, card, b) <= hands_without(hands, card, a) + (b - a),
    decreases b - a,
{
    if a < b {
        lemma_hands_without_mono(hands, card, a, b - 1);
    }
}

/// Turn hand index of every flop hand once `card` is dealt.
pub fn turn_index_mapping(hands: &[(Card, Card)], card: Card) -> (r: Vec<usize>)
    ensures
        r@ == turn_mapping(hands@, card as int),
{
    let mut mapping: Vec<usize> = Vec::new();
    let mut turn_idx: usize = 0;
    let mut i: usize = 0;
    while i < hands.len()
        invariant
            i <= hands@.len(),
            turn_idx == hands_without(hands@, card as int, i as int),
            turn_idx <= i,
            mapping@ =~= turn_mapping(hands@, card as int).take(i as int),
        decreases hands@.len() - i,
    {
        let (c1, c2) = hands[i];
        if c1 == card || c2 == card {
            mapping.push(BLOCKED_TURN_INDEX);
        } else {
            mapping.push(turn_idx);
            turn_idx = turn_idx + 1;
        }
        i = i + 1;
    }
    mapping
}

/// Law: the turn indices of the hands that do not hold the dealt card increase with
/// the flop index and stay below the number of such hands, so they number the turn
/// hands in flop order.
pub proof fn lemma_turn_mapping_order(hands: Seq<(Card, Card)>, card: int, i: int, j: int)
    requires
        0 <= i < j < hands.len(),
        hands.len() <= usize::MAX,
        !holds_card(hands[i], card),
        !holds_card(hands[j], card),
    ensures
        turn_mapping(hands, card)[i] < turn_mapping(hands, card)[j],
        turn_mapping(hands, card)[j] < hands_without(hands, card, hands.len() as int),
{
    assert(hands_without(hands, card, i + 1) == hands_without(hands, card, i) + 1);
    assert(hands_without(hands, card, j + 1) == hands_without(hands, card, j) + 1);
    lemma_hands_without_mono(hands, card, i + 1, j);
    lemma_hands_without_mono(hands, card, j + 1, hands.len() as int);
    lemma_hands_without_mono(hands, card, 0, i);
}

/// Law: with three distinct flop cards from the deck, 49 turn cards can be dealt.
pub proof fn lemma_num_turn_cards(flop: [Card; 3])
    requires
        flop[0] < 52,
        flop[1] < 52,
        flop[2] < 52,
        flop[0] != flop[1],
        flop[0] != flop[2],
        flop[1] != flop[2],
    ensures
        cards_off_board(flop, 52) == 49,
{
    lemma_cards_off_board_count(flop, 52);
}

proof fn lemma_cards_off_board_count(flop: [Card; 3], n: int)
    requires
        0 <= n,
        flop[0] != flop[1],
        flop[0] != flop[2],
        flop[1] != flop[2],
    ensures
        cards_off_board(flop, n) + (if (flop[0] as int) < n { 1int } else { 0 }) + (if (
        flop[1] as int) < n { 1int } else { 0 }) + (if (flop[2] as int) < n { 1int } else { 0 })
            == n,
    decreases n,
{
    if n > 0 {
        lemma_cards_off_board_count(flop, n - 1);
    }
}

/// Flop-to-turn hand mappings of a game, with the oracle that provides turn values.
pub struct OracleContext {
    oracle: OracleLookupTable,
    /// Per card: `None` for a flop card, else the turn index of every flop hand of
    /// each player.
    flop_to_turn: Vec<Option<[Vec<usize>; 2]>>,
    num_turn_cards: usize,
}

impl OracleContext {
    pub closed spec fn spec_oracle(&self) -> OracleLookupTable {
        self.oracle
    }

    pub closed spec fn spec_flop_to_turn(&self) -> Seq<Option<[Vec<usize>; 2]>> {
        self.flop_to_turn@
    }

    pub closed spec fn spec_num_turn_cards(&self) -> usize {
        self.num_turn_cards
    }

    /// Builds the flop-to-turn mappings from the game's flop and hands: for every card
    /// not on the flop, each player's flop hands renumbered without those that hold it.
    pub fn new(game: &PostFlopGame, oracle: OracleLookupTable) -> (r: Self)
        ensures
            r.spec_oracle() == oracle,
            r.spec_num_turn_cards() == cards_off_board(game.flop, 52),
            r.spec_flop_to_turn().len() == 52,
            forall|c: int|
                0 <= c < 52 ==> (#[trigger] r.spec_flop_to_turn()[c] is None <==> on_board(
                    game.flop,
                    c,
                )),
            forall|c: int|
                0 <= c < 52 ==> (#[trigger] r.spec_flop_to_turn()[c] matches Some(m) ==> m[0]@
                    == turn_mapping(game.private_cards[0]@, c) && m[1]@ == turn_mapping(
                    game.private_cards[1]@,
                    c,
                )),
    {
        let flop = game.flop;
        let mut flop_to_turn: Vec<Option<[Vec<usize>; 2]>> = Vec::new();
        let mut num_turn_cards: usize = 0;
        let mut card: u8 = 0;
        while card < 52
            invariant
                flop == game.flop,
                card <= 52,
                num_turn_cards == cards_off_board(flop, card as int),
                num_turn_cards <= card,
                flop_to_turn@.len() == card,
                forall|c: int|
                    0 <= c < card ==> (#[trigger] flop_to_turn@[c] is None <==> on_board(flop, c)),
                forall|c: int|
                    0 <= c < card ==> (#[trigger] flop_to_turn@[c] matches Some(m) ==> m[0]@
                        == turn_mapping(game.private_cards[0]@, c) && m[1]@ == turn_mapping(
                        game.private_cards[1]@,
                        c,
                    )),
            decreases 52 - card,
        {
            if card == flop[0] || card == flop[1] || card == flop[2] {
                flop_to_turn.push(None);
            } else {
                num_turn_cards = num_turn_cards + 1;
                let m0 = turn_index_mapping(game.private_cards(0), card);
                let m1 = turn_index_mapping(game.private_cards(1), card);
                flop_to_turn.push(Some([m0, m1]));
            }
            card = card + 1;
        }
        OracleContext { oracle, flop_to_turn, num_turn_cards }
    }

    /// Number of cards that can be dealt on the turn.
    pub fn num_turn_cards(&self) -> (r: usize)
        ensures
            r == self.spec_num_turn_cards(),
    {
        self.num_turn_cards
    }

    /// Turn index of every flop hand of `player` once `card` is dealt; `None` for a
    /// flop card.
    pub fn turn_indices(&self, card: Card, player: usize) -> (r: Option<&[usize]>)
        requires
            card < self.spec_flop_to_turn().len(),
            player < 2,
        ensures
            match self.spec_flop_to_turn()[card as int] {
                Some(m) => r matches Some(s) && s@ == m[player as int]@,
                None => r is None,
            },
    {
        match &self.flop_to_turn[card as usize] {
            Some(m) => Some(m[player].as_slice()),
            None => None,
        }
    }

    /// The oracle table.
    pub fn oracle(&self) -> (r: &OracleLookupTable)
        ensures
            *r == self.spec_oracle(),
    {
        &self.oracle
    }
}

} // verus!
