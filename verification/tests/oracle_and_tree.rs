use postflop_solver::action_tree::{Action, ActionTreeNode, BoardState, PLAYER_CHANCE_FLAG, PLAYER_IP, PLAYER_OOP, PLAYER_TERMINAL_FLAG};
use postflop_solver::card::NOT_DEALT;
use postflop_solver::flop_tree::{same_hand_index, FlopTree};
use postflop_solver::file::OutputMode;
use postflop_solver::game::{check_game_version, PostFlopGame, State, StorageNode};
use postflop_solver::oracle::{
    boundary_pot_and_stack, turn_index_mapping, OracleContext, OracleLookupTable, TurnMatrix,
    BLOCKED_TURN_INDEX,
};

fn matrix(n: usize) -> TurnMatrix {
    TurnMatrix { num_private_hands: [n, n + 1], memory_bytes: 10 * n }
}

fn table() -> OracleLookupTable {
    // flop 0, 1, 2: 49 turn cards for each of the two amounts
    let matrices: Vec<TurnMatrix> = (0..98).map(matrix).collect();
    OracleLookupTable::assemble([0, 1, 2], vec![10, 30], matrices, 100, 900)
}

#[test]
fn oracle_table_layout() {
    let t = table();
    assert_eq!(t.flop(), [0, 1, 2]);
    assert_eq!(t.boundary_amounts(), &[10, 30]);
    assert_eq!(t.num_entries(), 98);
    // sum of 10 * n for n in 0..98
    assert_eq!(t.matrix_memory_bytes(), 10 * 97 * 98 / 2);
    // flop cards have no matrix
    assert!(t.get(10, 1).is_none());
    // card 3 is the first turn card: matrix 0 for amount 10, matrix 49 for amount 30
    assert_eq!(t.get(10, 3), Some(&matrix(0)));
    assert_eq!(t.get(30, 3), Some(&matrix(49)));
    assert_eq!(t.get(30, 51), Some(&matrix(97)));
    // unknown amount
    assert!(t.get(20, 3).is_none());
}

#[test]
fn boundary_game_parameters() {
    assert_eq!(boundary_pot_and_stack(100, 900, 30), (160, 870));
    assert_eq!(boundary_pot_and_stack(100, 900, 900), (1900, 1));
    assert_eq!(boundary_pot_and_stack(100, 900, 950), (2000, 1));
}

#[test]
fn turn_mapping_drops_blocked_hands() {
    let hands = [(0u8, 5u8), (3, 7), (5, 9), (8, 11)];
    let m = turn_index_mapping(&hands, 5);
    assert_eq!(m, vec![BLOCKED_TURN_INDEX, 0, BLOCKED_TURN_INDEX, 1]);
    assert_eq!(turn_index_mapping(&hands, 50), vec![0, 1, 2, 3]);
}

fn game() -> PostFlopGame {
    PostFlopGame {
        state: State::Solved,
        flop: [33, 29, 18],
        initial_state: BoardState::Flop,
        storage_mode: BoardState::River,
        target_storage_mode: BoardState::River,
        is_compression_enabled: false,
        num_nodes: [3, 2, 1],
        num_storage: 100,
        num_storage_ip: 10,
        num_storage_chance: 5,
        storage1: (0..400u32).map(|i| (i % 251) as u8).collect(),
        storage2: vec![7u8; 400],
        storage_ip: vec![8u8; 40],
        storage_chance: vec![9u8; 20],
        memory_usage_uncompressed: 5000,
        memory_usage_compressed: 3000,
        misc_memory_usage: 7,
        nodes: vec![
            StorageNode { is_terminal: false, is_chance: false, storage1_offset: 0, storage_ip_offset: 0, num_elements: 10, num_elements_ip: 4 },
            StorageNode { is_terminal: false, is_chance: false, storage1_offset: 40, storage_ip_offset: 16, num_elements: 6, num_elements_ip: 2 },
            StorageNode { is_terminal: false, is_chance: true, storage1_offset: 0, storage_ip_offset: 0, num_elements: 3, num_elements_ip: 0 },
            StorageNode { is_terminal: true, is_chance: false, storage1_offset: 0, storage_ip_offset: 0, num_elements: 0, num_elements_ip: 0 },
            StorageNode { is_terminal: false, is_chance: false, storage1_offset: 64, storage_ip_offset: 24, num_elements: 5, num_elements_ip: 1 },
            StorageNode { is_terminal: true, is_chance: false, storage1_offset: 0, storage_ip_offset: 0, num_elements: 0, num_elements_ip: 0 },
        ],
        private_cards: [vec![(0, 1), (0, 50), (48, 49)], vec![(2, 3), (50, 51)]],
    }
}

#[test]
fn oracle_context_mappings() {
    let g = game();
    let ctx = OracleContext::new(&g, table());
    assert_eq!(ctx.num_turn_cards(), 49);
    assert!(ctx.turn_indices(33, 0).is_none());
    assert_eq!(ctx.turn_indices(50, 0).unwrap(), &[0, BLOCKED_TURN_INDEX, 1]);
    assert_eq!(ctx.turn_indices(50, 1).unwrap(), &[0, BLOCKED_TURN_INDEX]);
    assert_eq!(ctx.turn_indices(7, 1).unwrap(), &[0, 1]);
    assert_eq!(ctx.oracle().num_entries(), 98);
}

#[test]
fn storage_modes_and_memory() {
    let mut g = game();
    assert_eq!(g.storage_mode(), BoardState::River);
    assert_eq!(g.target_memory_usage(), 5000);
    g.is_compression_enabled = true;
    assert_eq!(g.target_memory_usage(), 3000);
    g.is_compression_enabled = false;

    // flop only: the last decision node below index 3 is node 1 (ends at 40 + 4 * 6),
    // its IP data ends at 16 + 4 * 2, the chance node's data at 0 + 4 * 3
    assert_eq!(g.set_target_storage_mode(BoardState::Flop), Ok(()));
    assert_eq!(g.target_storage_mode(), BoardState::Flop);
    assert_eq!(g.target_memory_usage(), (64 + 64 + 24 + 12 + 7) as u64);

    // flop and turn: node 4 is the last decision node below index 5
    g.set_target_storage_mode(BoardState::Turn).unwrap();
    assert_eq!(g.target_memory_usage(), (84 + 84 + 28 + 12 + 7) as u64);

    // before allocation nothing is stored
    g.state = State::TreeBuilt;
    assert_eq!(g.target_memory_usage(), 7);
}

#[test]
fn target_storage_mode_errors() {
    let mut g = game();
    g.storage_mode = BoardState::Turn;
    assert_eq!(
        g.set_target_storage_mode(BoardState::River),
        Err("Cannot set target to a higher value than the current storage".to_string())
    );
    g.initial_state = BoardState::Turn;
    assert_eq!(
        g.set_target_storage_mode(BoardState::Flop),
        Err("Cannot set target to a lower value than the initial state".to_string())
    );
    assert_eq!(g.target_storage_mode(), BoardState::River);
}

#[test]
fn flop_strength_of_game() {
    let g = game();
    assert_eq!(g.simple_hand_strength_flop(48, 49), 4680);
    assert_eq!(g.simple_hand_strength_flop(1, 5), 2015);
    assert_eq!(g.simple_hand_strength_flop(0, 5), 15);
    assert_eq!(g.private_cards(1), &[(2, 3), (50, 51)]);
}

fn leaf(player: u8, amount: i32) -> ActionTreeNode {
    ActionTreeNode { player, turn: NOT_DEALT, river: NOT_DEALT, amount, actions: vec![], children: vec![] }
}

fn small_tree() -> ActionTreeNode {
    let ip_after_check = ActionTreeNode {
        player: PLAYER_IP,
        turn: NOT_DEALT,
        river: NOT_DEALT,
        amount: 0,
        actions: vec![Action::Check, Action::Bet(10)],
        children: vec![
            leaf(PLAYER_CHANCE_FLAG, 0),
            ActionTreeNode {
                player: PLAYER_OOP,
                turn: NOT_DEALT,
                river: NOT_DEALT,
                amount: 10,
                actions: vec![Action::Fold, Action::Call],
                children: vec![leaf(PLAYER_TERMINAL_FLAG | PLAYER_OOP, 10), leaf(PLAYER_CHANCE_FLAG, 10)],
            },
        ],
    };
    let ip_after_bet = ActionTreeNode {
        player: PLAYER_IP,
        turn: NOT_DEALT,
        river: NOT_DEALT,
        amount: 10,
        actions: vec![Action::Fold, Action::Call],
        children: vec![leaf(PLAYER_TERMINAL_FLAG | PLAYER_IP, 10), leaf(PLAYER_CHANCE_FLAG, 10)],
    };
    ActionTreeNode {
        player: PLAYER_OOP,
        turn: NOT_DEALT,
        river: NOT_DEALT,
        amount: 0,
        actions: vec![Action::Check, Action::Bet(10)],
        children: vec![ip_after_check, ip_after_bet],
    }
}

#[test]
fn flop_tree_layout() {
    let tree = FlopTree::from_action_tree(&small_tree());
    assert_eq!(tree.num_nodes(), 9);
    let n = &tree.nodes;
    // root's children at 1 and 2
    assert_eq!((n[0].children_offset, n[0].num_children), (1, 2));
    // first child (IP after check) has its children at 3 and 4
    assert_eq!((n[1].children_offset, n[1].num_children), (2, 2));
    assert!(n[3].is_boundary && n[3].amount == 0);
    // OOP facing the bet (index 4) has its children at 5 and 6
    assert_eq!((n[4].children_offset, n[4].num_children), (1, 2));
    assert_eq!(n[5].player, PLAYER_TERMINAL_FLAG | PLAYER_OOP);
    assert!(!n[5].is_boundary);
    assert!(n[6].is_boundary);
    // IP after the bet (index 2) has its children at 7 and 8
    assert_eq!((n[2].children_offset, n[2].num_children), (5, 2));
    assert!(n[8].is_boundary);
    assert_eq!(tree.boundary_amounts(), vec![0, 10]);
}

#[test]
fn same_hand_indices() {
    let hands = [(0u8, 1u8), (2, 3), (4, 5)];
    let opponent = [(0u8, 1u8), (4, 5), (6, 7)];
    assert_eq!(same_hand_index(&hands, &opponent), vec![0, u16::MAX, 1]);
    assert_eq!(same_hand_index(&hands, &[]), vec![u16::MAX; 3]);
}

#[test]
fn json_size_estimate() {
    let g = game();
    // 6 nodes, 5 hands (2 on average): 50_000 + 500 + 6 * (200 + 48 + 48 + 16)
    assert_eq!(g.estimate_json_size(), 52_372);
}

#[test]
fn saved_storage_slices() {
    let mut g = game();
    // river kept: the whole strategy buffer, nothing else
    let (s1, s2, s3, s4) = g.target_storage_slices(OutputMode::Full);
    assert_eq!(s1.len(), 400);
    assert!(s2.is_empty() && s3.is_empty() && s4.is_empty());
    assert_eq!(g.num_encoded_nodes(), 6);

    g.set_target_storage_mode(BoardState::Flop).unwrap();
    let (s1, s2, s3, s4) = g.target_storage_slices(OutputMode::Full);
    assert_eq!((s1.len(), s2.len(), s3.len(), s4.len()), (64, 64, 24, 12));
    assert_eq!(s1, &g.storage1[..64]);
    let (_, s2, _, _) = g.target_storage_slices(OutputMode::Display);
    assert!(s2.is_empty());
    assert_eq!(g.num_encoded_nodes(), 3);
    g.set_target_storage_mode(BoardState::Turn).unwrap();
    assert_eq!(g.num_encoded_nodes(), 5);
}

#[test]
fn restored_storage_after_load() {
    // a river game read from a file: regrets, in-position and chance storage are rebuilt
    let mut g = game();
    g.storage2 = vec![];
    g.storage_ip = vec![];
    g.storage_chance = vec![];
    g.target_storage_mode = BoardState::Flop;
    g.restore_storage(false);
    assert_eq!(g.target_storage_mode, BoardState::River);
    assert_eq!(g.storage2, vec![0u8; 400]);
    assert_eq!(g.storage_ip, vec![0u8; 40]);
    assert_eq!(g.storage_chance, vec![0u8; 20]);
    assert_eq!(g.storage1.len(), 400);

    // a flop-only display-mode file: only the regrets are zero-filled
    let mut g = game();
    g.storage_mode = BoardState::Flop;
    g.storage2 = vec![];
    g.storage_ip = vec![1, 2];
    g.restore_storage(true);
    assert_eq!(g.target_storage_mode, BoardState::Flop);
    assert_eq!(g.storage2, vec![0u8; 400]);
    assert_eq!(g.storage_ip, vec![1, 2]);

    // before memory is allocated nothing is filled
    let mut g = game();
    g.state = State::TreeBuilt;
    g.storage2 = vec![];
    g.restore_storage(true);
    assert!(g.storage2.is_empty());
}

#[test]
fn storage_round_trip_river() {
    let saved = game();
    let (s1, s2, s3, s4) = saved.target_storage_slices(OutputMode::Full);
    let mut loaded = game();
    loaded.storage_mode = saved.target_storage_mode;
    loaded.storage1 = s1.to_vec();
    loaded.storage2 = s2.to_vec();
    loaded.storage_ip = s3.to_vec();
    loaded.storage_chance = s4.to_vec();
    loaded.restore_storage(false);
    assert_eq!(loaded.storage1, saved.storage1);
    assert_eq!(loaded.storage2, vec![0u8; 400]);
    assert_eq!(loaded.storage_ip, vec![0u8; 40]);
    assert_eq!(loaded.storage_chance, vec![0u8; 20]);
}

#[test]
fn storage_round_trip_turn() {
    let mut saved = game();
    saved.set_target_storage_mode(BoardState::Turn).unwrap();
    let (s1, s2, s3, s4) = saved.target_storage_slices(OutputMode::Full);
    let mut loaded = game();
    loaded.storage_mode = saved.target_storage_mode;
    loaded.storage1 = s1.to_vec();
    loaded.storage2 = s2.to_vec();
    loaded.storage_ip = s3.to_vec();
    loaded.storage_chance = s4.to_vec();
    loaded.restore_storage(false);
    assert_eq!(loaded.target_storage_mode, BoardState::Turn);
    assert_eq!(loaded.storage1, saved.storage1[..84].to_vec());
    assert_eq!(loaded.storage2, saved.storage2[..84].to_vec());
    assert_eq!(loaded.storage_ip, saved.storage_ip[..28].to_vec());
    assert_eq!(loaded.storage_chance, saved.storage_chance[..12].to_vec());
}

#[test]
fn game_version_check() {
    assert_eq!(check_game_version("2026-01-28"), Ok(()));
    assert_eq!(
        check_game_version("2025-01-01"),
        Err("Version mismatch: expected '2026-01-28', but got '2025-01-01'".to_string())
    );
    assert!(check_game_version("").is_err());
}

#[test]
fn save_readiness_and_estimate() {
    let mut g = game();
    assert!(g.is_ready_to_save());
    assert_eq!(g.estimated_memory_usage(), 5000);
    g.set_target_storage_mode(BoardState::Flop).unwrap();
    assert_eq!(g.estimated_memory_usage(), g.target_memory_usage());
    g.state = State::MemoryAllocated;
    assert!(!g.is_ready_to_save());
}

#[test]
fn full_table_entry_count() {
    // a valid flop leaves 49 turn cards per amount
    let t = OracleLookupTable::assemble([33, 29, 18], vec![5, 15, 45], (0..147).map(matrix).collect(), 100, 900);
    assert_eq!(t.num_entries(), 3 * 49);
}
