use postflop_solver::cluster::showdown_counts;
use postflop_solver::abstraction::cluster_sizes;
use postflop_solver::action_tree::{Action, ActionTreeNode, BoardState, PLAYER_CHANCE_FLAG, PLAYER_IP, PLAYER_OOP, PLAYER_TERMINAL_FLAG, count_flop_nodes};
use postflop_solver::bucketing::{board_seed, combo_features, compute_buckets, compute_flush_features, compute_made_hand_rank, valid_combo_indices, xorshift64, BLOCKED_BUCKET};
use postflop_solver::card::{card_pair_to_index, index_to_card_pair, NOT_DEALT};
use postflop_solver::encoder::{action_type_slots, bet_size_slots, board_slots, hole_card_slots, ActionType};
use postflop_solver::ev_map::{count_straight_outs, simple_hand_strength};
use postflop_solver::hand::{check_straight, count_straight_draw_outs};
use postflop_solver::traversal::{estimate_max_actions, get_action_info};

const TEST_BOARD: [u8; 4] = [33, 29, 18, 40];

#[test]
fn card_pair_index_examples() {
    assert_eq!(card_pair_to_index(1, 20), 69);
    assert_eq!(card_pair_to_index(20, 1), 69);
    assert_eq!(card_pair_to_index(50, 51), 1325);
    assert_eq!(card_pair_to_index(0, 1), 0);
    assert_eq!(index_to_card_pair(69), (1, 20));
    assert_eq!(index_to_card_pair(1325), (50, 51));
}

#[test]
fn card_pair_index_round_trip_all() {
    for idx in 0..1326usize {
        let (a, b) = index_to_card_pair(idx);
        assert!(a < b && b < 52);
        assert_eq!(card_pair_to_index(a, b), idx);
    }
}

#[test]
fn valid_combos_on_test_board() {
    let v = valid_combo_indices(&TEST_BOARD);
    assert_eq!(v.len(), 1128);
    for w in v.windows(2) {
        assert!(w[0] < w[1]);
    }
    // 2c-2d (index 0) is not blocked by the board
    assert_eq!(v[0], 0);
}

#[test]
fn buckets_follow_assignments_when_k_small() {
    let assignments: Vec<u16> = (0..1128u16).map(|j| j % 3).collect();
    let b = compute_buckets(&TEST_BOARD, 3, &assignments);
    assert_eq!(b.k, 3);
    assert_eq!(b.num_valid, 1128);
    let valid = valid_combo_indices(&TEST_BOARD);
    for (j, &idx) in valid.iter().enumerate() {
        assert_eq!(b.hand_to_bucket[idx as usize], (j % 3) as u16);
    }
    // a combination holding a board card is blocked
    let blocked = card_pair_to_index(33, 0);
    assert_eq!(b.hand_to_bucket[blocked], BLOCKED_BUCKET);
    // every bucket given is below k, and all three are used
    let mut used = [false; 3];
    for &x in b.hand_to_bucket.iter().filter(|&&x| x != BLOCKED_BUCKET) {
        assert!((x as usize) < b.k);
        used[x as usize] = true;
    }
    assert!(used.iter().all(|&u| u));
}

#[test]
fn buckets_with_zero_k() {
    let b = compute_buckets(&TEST_BOARD, 0, &[]);
    assert_eq!(b.k, 0);
    assert_eq!(b.num_valid, 1128);
    assert!(b.hand_to_bucket.iter().all(|&x| x == BLOCKED_BUCKET));
}

#[test]
fn seed_and_xorshift_values() {
    let seed = board_seed(&TEST_BOARD);
    assert_eq!(seed, 5147136);
    let mut state = seed;
    let x = xorshift64(&mut state);
    assert_eq!(x, 5494607169492756);
    assert_eq!(state, x);
    assert_eq!(board_seed(&[0, 0, 0, 0]), 151740);
}

#[test]
fn flush_features_examples() {
    // 2s3s-ish hand in suit 1 with two board cards of suit 1: a non-nut flush draw
    assert_eq!(compute_flush_features(1, 5, &TEST_BOARD), (true, false, false));
    // Ace of suit 1 makes it the nut draw
    assert_eq!(compute_flush_features(49, 5, &TEST_BOARD), (true, true, false));
    // offsuit hand: no draw
    assert_eq!(compute_flush_features(0, 6, &TEST_BOARD), (false, false, false));
}

#[test]
fn made_hand_rank_examples() {
    // pocket aces: one pair
    assert_eq!(compute_made_hand_rank(48, 49, &TEST_BOARD), 2);
    // 7-8 with T-9-6-Q: straight 6-7-8-9-T
    assert_eq!(compute_made_hand_rank(20, 24, &TEST_BOARD), 6);
    // 2-3 offsuit: high card
    assert_eq!(compute_made_hand_rank(0, 5, &TEST_BOARD), 0);
    // T-T: trips
    assert_eq!(compute_made_hand_rank(32, 34, &TEST_BOARD), 5);
}

#[test]
fn straight_checks() {
    assert!(check_straight(0b1_1111));
    assert!(check_straight(0b1_0000_0000_1111)); // wheel A-2-3-4-5
    assert!(!check_straight(0b1_0111));
    // 7-8 with T-9-6-Q is already a straight: no outs are counted
    assert_eq!(count_straight_draw_outs(20, 24, &TEST_BOARD), 0);
    // 5-6 with 7-8-A-Q: open-ended, a 4 or a 9 makes it (4 cards each)
    assert_eq!(count_straight_draw_outs(12, 16, &[20, 24, 48, 41]), 8);
}

#[test]
fn straight_outs_of_ranks() {
    // four to a straight 5-6-7-8: open-ended
    assert_eq!(count_straight_outs(&[3, 4, 5, 6]), 4);
    // an ace also counts low
    assert_eq!(count_straight_outs(&[12, 1, 2, 3]), 4);
    assert_eq!(count_straight_outs(&[12, 0, 1, 2]), 3);
    assert_eq!(count_straight_outs(&[]), 0);
}

#[test]
fn hand_strength_examples() {
    let flop = [33u8, 29, 18];
    assert_eq!(simple_hand_strength(48, 49, &flop), 4680);
    assert_eq!(simple_hand_strength(32, 0, &flop), 3120);
    assert_eq!(simple_hand_strength(1, 5, &flop), 2015);
}

#[test]
fn cluster_sizes_counts() {
    let sizes = cluster_sizes(&[0, 1, 1, 2, 2, 2, 7], 3);
    assert_eq!(sizes, vec![1, 2, 3]);
    assert_eq!(cluster_sizes(&[], 2), vec![0, 0]);
}

#[test]
fn action_type_and_info() {
    assert_eq!(ActionType::from_action(Action::AllIn(50)), Some(ActionType::Raise));
    assert_eq!(ActionType::from_action(Action::Chance(3)), None);
    assert_eq!(ActionType::from_action(Action::NoAction), None);
    assert_eq!(get_action_info(Action::Call, 40), (ActionType::Call, 40));
    assert_eq!(get_action_info(Action::Bet(30), 40), (ActionType::Bet, 30));
    assert_eq!(get_action_info(Action::Fold, 40), (ActionType::Fold, 0));
    assert_eq!(estimate_max_actions(0), 6);
    assert_eq!(estimate_max_actions(3), 10);
}

fn leaf(player: u8, amount: i32) -> ActionTreeNode {
    ActionTreeNode { player, turn: NOT_DEALT, river: NOT_DEALT, amount, actions: vec![], children: vec![] }
}

pub fn small_tree() -> ActionTreeNode {
    // OOP: check or bet; after check, IP checks (boundary) or bets 10 (IP bet -> OOP folds or calls)
    let ip_after_check = ActionTreeNode {
        player: PLAYER_IP,
        turn: NOT_DEALT,
        river: NOT_DEALT,
        amount: 0,
        actions: vec![Action::Check, Action::Bet(10)],
        children: vec![
            leaf(PLAYER_CHANCE_FLAG, 0),
            ActionTreeNode {
                player: PLAYER_OOP,
                turn: NOT_DEALT,
                river: NOT_DEALT,
                amount: 0,
                actions: vec![Action::Fold, Action::Call],
                children: vec![leaf(PLAYER_TERMINAL_FLAG | PLAYER_OOP, 0), leaf(PLAYER_CHANCE_FLAG, 10)],
            },
        ],
    };
    let ip_after_bet = ActionTreeNode {
        player: PLAYER_IP,
        turn: NOT_DEALT,
        river: NOT_DEALT,
        amount: 0,
        actions: vec![Action::Fold, Action::Call],
        children: vec![leaf(PLAYER_TERMINAL_FLAG | PLAYER_IP, 0), leaf(PLAYER_CHANCE_FLAG, 10)],
    };
    ActionTreeNode {
        player: PLAYER_OOP,
        turn: NOT_DEALT,
        river: NOT_DEALT,
        amount: 0,
        actions: vec![Action::Check, Action::Bet(10)],
        children: vec![ip_after_check, ip_after_bet],
    }
}

#[test]
fn flop_node_count() {
    assert_eq!(count_flop_nodes(&small_tree()), 9);
    assert_eq!(count_flop_nodes(&leaf(PLAYER_CHANCE_FLAG, 5)), 1);
    let _ = BoardState::Turn;
}

#[test]
fn encoding_slots() {
    assert_eq!(board_slots([0, 4, 8], NOT_DEALT, NOT_DEALT), vec![0, 56, 112]);
    assert_eq!(board_slots([51, 0, 1], 2, 3), vec![51, 52, 105, 158, 211]);
    assert_eq!(hole_card_slots(10, 3), vec![3, 62]);
    assert_eq!(hole_card_slots(3, 10), vec![3, 62]);
    let actions = [(ActionType::Fold, 0), (ActionType::Bet, 100), (ActionType::Call, 0), (ActionType::Raise, 250)];
    assert_eq!(action_type_slots(&actions), vec![0, 8, 12, 18]);
    assert_eq!(bet_size_slots(&actions), vec![(9, 100), (19, 250)]);
    let long: Vec<(ActionType, i32)> = (0..12).map(|i| (ActionType::Check, i)).collect();
    assert_eq!(action_type_slots(&long).len(), 10);
    assert_eq!(*action_type_slots(&long).last().unwrap(), 46);
    assert!(bet_size_slots(&long).is_empty());
}

#[test]
fn combo_features_example() {
    // Ac Jc on Td 9d 6h Qc: ace high with an open-ended draw (an 8 or a king)
    let f = combo_features(48, 36, &TEST_BOARD);
    assert_eq!(f.made_hand_rank, 0);
    assert!(!f.is_pair);
    assert!(f.is_suited);
    assert_eq!(f.rank_gap, 3);
    assert_eq!(f.suit_match_c1, 1);
    assert_eq!(f.suit_match_c2, 1);
    assert_eq!(f.pairs_with_board, 0);
    assert_eq!(f.overcards, 1);
    assert_eq!((f.has_flush_draw, f.is_nut_flush_draw, f.has_made_flush), (false, false, false));
    assert_eq!(f.straight_draw_outs, 8);
    assert!(!f.has_made_straight);

    // Tc Th on the same board: trips; one board card (6h) shares the second card's suit
    let g = combo_features(32, 34, &TEST_BOARD);
    assert_eq!(g.made_hand_rank, 5);
    assert!(g.is_pair);
    assert_eq!(g.pairs_with_board, 1);
    assert_eq!(g.suit_match_c2, 1);
    assert_eq!(g.overcards, 0);
}

#[test]
fn showdown_counts_skip_colliding_hands() {
    let dead = [0u8, 1, 2, 3, 4, 10, 11];
    let hands = [(0u8, 5u8), (5, 6), (7, 8), (9, 12), (13, 11)];
    let strengths = [300u16, 50, 100, 200, 10];
    // (0, 5) and (13, 11) share a card; one win, one tie, one loss remain
    assert_eq!(showdown_counts(100, &dead, &hands, &strengths), (3, 6));
    assert_eq!(showdown_counts(100, &dead, &[], &[]), (0, 0));
    assert_eq!(showdown_counts(0, &dead, &hands[1..2], &strengths[1..2]), (0, 2));
}
