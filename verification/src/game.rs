//! Storage bookkeeping of a solved game: which streets are kept when it is saved, and
//! how much memory that takes.
use vstd::prelude::*;
use crate::action_tree::BoardState;
use crate::card::Card;
use crate::file::OutputMode;
use crate::strength::{flop_strength, flush_draw, has_flush_draw, made_score_exec};

verus! {

/// Life-cycle state of a game.
#[derive(Clone, Copy, Debug, PartialEq, Eq)]
pub enum State {
    ConfigError,
    Uninitialized,
    TreeBuilt,
    MemoryAllocated,
    Solved,
}

impl State {
    /// Position in the life cycle.
    pub open spec fn spec_index(self) -> int {
        match self {
            State::ConfigError => 0,
            State::Uninitialized => 1,
            State::TreeBuilt => 2,
            State::MemoryAllocated => 3,
            State::Solved => 4,
        }
    }

    /// Position in the life cycle.
    pub fn index(&self) -> (r: u8)
        ensures
            r == self.spec_index(),
    {
        match self {
            State::ConfigError => 0,
            State::Uninitialized => 1,
            State::TreeBuilt => 2,
            State::MemoryAllocated => 3,
            State::Solved => 4,
        }
    }
}

/// Where a node's data lies in the game's storage buffers.
#[derive(Clone, Copy, Debug)]
pub struct StorageNode {
    pub is_terminal: bool,
    pub is_chance: bool,
    /// Byte offset of the node's strategy data in the main storage.
    pub storage1_offset: usize,
    /// Byte offset of the node's data in the in-position player's storage.
    pub storage_ip_offset: usize,
    pub num_elements: u32,
    pub num_elements_ip: u32,
}

/// The parts of a post-flop game that its storage bookkeeping reads.
pub struct PostFlopGame {
    pub state: State,
    pub flop: [Card; 3],
    /// Street the game starts on.
    pub initial_state: BoardState,
    /// Deepest street whose data the game holds.
    pub storage_mode: BoardState,
    /// Deepest street whose data is kept when the game is saved.
    pub target_storage_mode: BoardState,
    /// Strategy data is stored as 16-bit values instead of 32-bit.
    pub is_compression_enabled: bool,
    /// Number of nodes on each street (flop, turn, river).
    pub num_nodes: [u64; 3],
    /// Number of elements of the main storage (strategies and regrets), the in-position
    /// storage and the chance storage.
    pub num_storage: u64,
    pub num_storage_ip: u64,
    pub num_storage_chance: u64,
    /// Storage buffers: strategies, regrets, in-position values, chance values.
    pub storage1: Vec<u8>,
    pub storage2: Vec<u8>,
    pub storage_ip: Vec<u8>,
    pub storage_chance: Vec<u8>,
    /// Memory the game uses, without and with compression.
    pub memory_usage_uncompressed: u64,
    pub memory_usage_compressed: u64,
    pub misc_memory_usage: u64,
    /// Storage location of every node, in arena order.
    pub nodes: Vec<StorageNode>,
    /// Hole-card combinations of each player, in the game's hand order.
    pub private_cards: [Vec<(Card, Card)>; 2],
}

/// The node is a decision node (neither terminal nor chance).
pub open spec fn is_action(n: StorageNode) -> bool {
    !n.is_terminal && !n.is_chance
}

/// Index of the last decision node below `n`, or -1.
pub open spec fn last_action_below(nodes: Seq<StorageNode>, n: int) -> int
    decreases n,
{
    if n <= 0 {
        -1
    } else if is_action(nodes[n - 1]) {
        n - 1
    } else {
        last_action_below(nodes, n - 1)
    }
}

/// Index of the last chance node below `n`, or -1.
pub open spec fn last_chance_below(nodes: Seq<StorageNode>, n: int) -> int
    decreases n,
{
    if n <= 0 {
        -1
    } else if nodes[n - 1].is_chance {
        n - 1
    } else {
        last_chance_below(nodes, n - 1)
    }
}

proof fn lemma_last_below(nodes: Seq<StorageNode>, n: int)
    requires
        0 <= n,
    ensures
        -1 <= last_action_below(nodes, n) < n,
        last_action_below(nodes, n) >= 0 ==> is_action(nodes[last_action_below(nodes, n)]),
        forall|i: int| last_action_below(nodes, n) < i < n ==> !is_action(#[trigger] nodes[i]),
        -1 <= last_chance_below(nodes, n) < n,
        last_chance_below(nodes, n) >= 0 ==> nodes[last_chance_below(nodes, n)].is_chance,
        forall|i: int| last_chance_below(nodes, n) < i < n ==> !(#[trigger] nodes[i]).is_chance,
    decreases n,
{
    if n > 0 {
        lemma_last_below(nodes, n - 1);
    }
}

impl PostFlopGame {
    /// Number of nodes whose data the target storage mode keeps.
    pub open spec fn target_node_bound(&self) -> int {
        match self.target_storage_mode {
            BoardState::Flop => self.num_nodes[0] as int,
            _ => self.num_nodes[0] + self.num_nodes[1],
        }
    }

    /// Bytes per stored element.
    pub open spec fn element_bytes(&self) -> int {
        if self.is_compression_enabled { 2 } else { 4 }
    }

    /// End of the data of the last decision node (main and in-position storage) and of
    /// the last chance node kept by the target storage mode.
    pub open spec fn storage_ends(&self) -> (int, int, int) {
        let a = last_action_below(self.nodes@, self.target_node_bound());
        let c = last_chance_below(self.nodes@, self.target_node_bound());
        let nb = self.element_bytes();
        (
            self.nodes@[a].storage1_offset + nb * self.nodes@[a].num_elements,
            self.nodes@[a].storage_ip_offset + nb * self.nodes@[a].num_elements_ip,
            self.nodes@[c].storage1_offset + nb * self.nodes@[c].num_elements,
        )
    }

    /// The stored layout is one the storage count can be taken from: the kept nodes
    /// include a decision node and a chance node, whose data ends past the start of
    /// their buffers.
    pub open spec fn storage_layout_ok(&self) -> bool {
        let bound = self.target_node_bound();
        let a = last_action_below(self.nodes@, bound);
        let c = last_chance_below(self.nodes@, bound);
        let (e0, e2, e3) = self.storage_ends();
        &&& bound <= self.nodes@.len()
        &&& a >= 0
        &&& c >= 0
        &&& 0 < e0 <= usize::MAX
        &&& 0 < e2 <= usize::MAX
        &&& 0 < e3 <= usize::MAX
    }

    /// Number of storage bytes (main, regret, in-position, chance) kept when saving:
    /// none before memory is allocated; with the river kept, only the main storage of
    /// every node; otherwise the storage up to the end of the last kept decision node
    /// and chance node.
    pub open spec fn spec_num_target_storage(&self) -> Seq<int> {
        if self.state.spec_index() <= State::TreeBuilt.spec_index() {
            seq![0, 0, 0, 0]
        } else if self.target_storage_mode == BoardState::River {
            seq![self.element_bytes() * self.num_storage, 0, 0, 0]
        } else {
            let (e0, e2, e3) = self.storage_ends();
            seq![e0, e0, e2, e3]
        }
    }

    /// Returns the storage mode: the deepest street whose data the game holds.
    pub fn storage_mode(&self) -> (r: BoardState)
        ensures
            r == self.storage_mode,
    {
        self.storage_mode
    }

    /// Returns the target storage mode, which is used for serialization.
    pub fn target_storage_mode(&self) -> (r: BoardState)
        ensures
            r == self.target_storage_mode,
    {
        self.target_storage_mode
    }

    /// Sets the target storage mode; it can be neither deeper than the storage mode nor
    /// shallower than the initial street.
    pub fn set_target_storage_mode(&mut self, mode: BoardState) -> (r: Result<(), String>)
        ensures
            mode.spec_index() > old(self).storage_mode.spec_index() ==> (r matches Err(e)
                && e@ == "Cannot set target to a higher value than the current storage"@
                && *final(self) == *old(self)),
            mode.spec_index() <= old(self).storage_mode.spec_index() && mode.spec_index()
                < old(self).initial_state.spec_index() ==> (r matches Err(e)
                && e@ == "Cannot set target to a lower value than the initial state"@
                && *final(self) == *old(self)),
            old(self).initial_state.spec_index() <= mode.spec_index()
                <= old(self).storage_mode.spec_index() ==> r is Ok && *final(self) == (
            PostFlopGame { target_storage_mode: mode, ..*old(self) }),
    {
        if mode.index() > self.storage_mode.index() {
            return Err("Cannot set target to a higher value than the current storage".to_string());
        }
        if mode.index() < self.initial_state.index() {
            return Err("Cannot set target to a lower value than the initial state".to_string());
        }
        self.target_storage_mode = mode;
        Ok(())
    }

    /// Number of storage bytes kept when saving (see [`Self::spec_num_target_storage`]).
    pub fn num_target_storage(&self) -> (r: [usize; 4])
        requires
            self.state.spec_index() > State::TreeBuilt.spec_index()
                && self.target_storage_mode == BoardState::River ==> self.element_bytes()
                * self.num_storage <= usize::MAX,
            self.state.spec_index() > State::TreeBuilt.spec_index()
                && self.target_storage_mode != BoardState::River ==> self.storage_layout_ok(),
        ensures
            r@.map_values(|x: usize| x as int) == self.spec_num_target_storage(),
    {
        if self.state.index() <= 2 {
            assert([0usize, 0, 0, 0]@.map_values(|x: usize| x as int) =~= seq![0int, 0, 0, 0]);
            return [0; 4];
        }
        let num_bytes: u64 = if self.is_compression_enabled { 2 } else { 4 };
        if matches!(self.target_storage_mode, BoardState::River) {
            let r = [(num_bytes * self.num_storage) as usize, 0, 0, 0];
            assert(r@.map_values(|x: usize| x as int) =~= self.spec_num_target_storage());
            return r;
        }
        assert(self.nodes.len() <= usize::MAX);
        let bound = match self.target_storage_mode {
            BoardState::Flop => self.num_nodes[0],
            _ => self.num_nodes[0] + self.num_nodes[1],
        } as usize;
        let ghost nodes = self.nodes@;
        let ghost a = last_action_below(nodes, bound as int);
        let ghost c = last_chance_below(nodes, bound as int);
        let ghost ends = self.storage_ends();
        proof {
            lemma_last_below(nodes, bound as int);
        }
        let num_bytes = num_bytes as usize;
        let mut s0: usize = 0;
        let mut s1: usize = 0;
        let mut s2: usize = 0;
        let mut s3: usize = 0;
        let mut node_index = bound;
        while s0 == 0 || s1 == 0 || s2 == 0 || s3 == 0
            invariant
                node_index <= bound <= nodes.len(),
                nodes == self.nodes@,
                nodes.len() <= usize::MAX,
                bound == self.target_node_bound(),
                num_bytes == self.element_bytes(),
                a == last_action_below(nodes, bound as int),
                c == last_chance_below(nodes, bound as int),
                ends == self.storage_ends(),
                0 <= a < bound,
                0 <= c < bound,
                0 < ends.0 <= usize::MAX,
                0 < ends.1 <= usize::MAX,
                0 < ends.2 <= usize::MAX,
                forall|i: int| a < i < bound ==> !is_action(#[trigger] nodes[i]),
                forall|i: int| c < i < bound ==> !(#[trigger] nodes[i]).is_chance,
                is_action(nodes[a]),
                nodes[c].is_chance,
                s0 == (if a >= node_index { ends.0 } else { 0 }),
                s1 == (if a >= node_index { ends.0 } else { 0 }),
                s2 == (if a >= node_index { ends.1 } else { 0 }),
                s3 == (if c >= node_index { ends.2 } else { 0 }),
            decreases node_index,
        {
            node_index -= 1;
            let node = self.nodes[node_index];
            if s0 == 0 && !node.is_terminal && !node.is_chance {
                assert(node_index == a) by {
                    if node_index > a {
                        assert(!is_action(nodes[node_index as int]));
                    }
                }
                let ne = node.num_elements as usize;
                let ne_ip = node.num_elements_ip as usize;
                assert(node == nodes[a]);
                assert(ne == node.num_elements);
                assert(ne_ip == node.num_elements_ip);
                assert(ends.0 == node.storage1_offset + num_bytes * ne);
                assert(ends.1 == node.storage_ip_offset + num_bytes * ne_ip);
                let len = num_bytes * ne;
                let len_ip = num_bytes * ne_ip;
                s0 = node.storage1_offset + len;
                s1 = node.storage1_offset + len;
                s2 = node.storage_ip_offset + len_ip;
            }
            if s3 == 0 && node.is_chance {
                assert(node_index == c) by {
                    if node_index > c {
                        assert(!nodes[node_index as int].is_chance);
                    }
                }
                let ne = node.num_elements as usize;
                assert(node == nodes[c]);
                assert(ne == node.num_elements);
                assert(ends.2 == node.storage1_offset + num_bytes * ne);
                let len = num_bytes * ne;
                s3 = node.storage1_offset + len;
            }
        }
        let r = [s0, s1, s2, s3];
        assert(r@.map_values(|x: usize| x as int) =~= self.spec_num_target_storage());
        r
    }

    /// Memory the game needs once loaded with the target storage mode: with the river
    /// kept, the game's memory usage (compressed or not); otherwise the kept storage
    /// plus the miscellaneous memory.
    pub open spec fn spec_target_memory_usage(&self) -> int {
        if self.target_storage_mode == BoardState::River {
            if self.is_compression_enabled {
                self.memory_usage_compressed as int
            } else {
                self.memory_usage_uncompressed as int
            }
        } else {
            let s = self.spec_num_target_storage();
            s[0] + s[1] + s[2] + s[3] + self.misc_memory_usage
        }
    }

    /// Memory the game needs once loaded with the target storage mode.
    pub fn target_memory_usage(&self) -> (r: u64)
        requires
            self.target_storage_mode != BoardState::River && self.state.spec_index()
                > State::TreeBuilt.spec_index() ==> self.storage_layout_ok(),
            self.target_storage_mode != BoardState::River ==> self.spec_target_memory_usage()
                <= u64::MAX,
        ensures
            r == self.spec_target_memory_usage(),
    {
        if matches!(self.target_storage_mode, BoardState::River) {
            if self.is_compression_enabled {
                self.memory_usage_compressed
            } else {
                self.memory_usage_uncompressed
            }
        } else {
            let s = self.num_target_storage();
            assert(s@.map_values(|x: usize| x as int)[0] == s[0]);
            assert(s@.map_values(|x: usize| x as int)[1] == s[1]);
            assert(s@.map_values(|x: usize| x as int)[2] == s[2]);
            assert(s@.map_values(|x: usize| x as int)[3] == s[3]);
            s[0] as u64 + s[1] as u64 + s[2] as u64 + s[3] as u64 + self.misc_memory_usage
        }
    }

    /// Rough size in bytes of the game exported as JSON: 50 000 bytes of configuration,
    /// 100 per hand of either player, and per node 200 bytes plus 8 per value of three
    /// actions' strategy and counterfactual values and one in-position value for an
    /// average player's hands.
    pub open spec fn spec_estimate_json_size(&self) -> int {
        let total_nodes = self.num_nodes[0] + self.num_nodes[1] + self.num_nodes[2];
        let hands = self.private_cards[0]@.len() + self.private_cards[1]@.len();
        let avg_hands = hands / 2;
        let bytes_per_node = 200 + 3 * avg_hands * 8 + 3 * avg_hands * 8 + avg_hands * 8;
        50_000 + hands * 100 + total_nodes * bytes_per_node
    }

    /// Rough size in bytes of the game exported as JSON.
    pub fn estimate_json_size(&self) -> (r: usize)
        requires
            self.spec_estimate_json_size() <= usize::MAX,
        ensures
            r == self.spec_estimate_json_size(),
    {
        let ghost total = self.num_nodes[0] + self.num_nodes[1] + self.num_nodes[2];
        let num_oop_hands = self.private_cards[0].len();
        let num_ip_hands = self.private_cards[1].len();
        let ghost hands = num_oop_hands + num_ip_hands;
        let ghost avg = hands / 2;
        let ghost per_node = 200 + 3 * avg * 8 + 3 * avg * 8 + avg * 8;
        assert(0 <= total * per_node) by (nonlinear_arith)
            requires
                0 <= total,
                0 <= per_node,
        ;
        assert(hands * 100 <= usize::MAX && total * per_node <= usize::MAX);
        assert(per_node <= usize::MAX && total <= usize::MAX) by (nonlinear_arith)
            requires
                total * per_node <= usize::MAX,
                1 <= per_node,
                0 <= total,
                hands * 100 <= usize::MAX,
                per_node == 200 + 56 * avg,
                avg <= hands,
                0 <= avg,
        ;
        let total_nodes = self.num_nodes[0] as usize + self.num_nodes[1] as usize
            + self.num_nodes[2] as usize;
        let avg_num_actions: usize = 3;
        let avg_hands = (num_oop_hands + num_ip_hands) / 2;
        let bytes_per_node = 200 + (avg_num_actions * avg_hands * 8) + (avg_num_actions * avg_hands
            * 8) + (avg_hands * 8);
        let config_overhead: usize = 50_000;
        let hand_data_overhead = (num_oop_hands + num_ip_hands) * 100;
        config_overhead + hand_data_overhead + (total_nodes * bytes_per_node)
    }

    /// Parts of the storage buffers written when the game is saved: the prefixes of the
    /// sizes given by [`Self::spec_num_target_storage`], with the regrets left out in
    /// display mode.
    pub open spec fn spec_target_slices(&self, output_mode: OutputMode) -> (
        Seq<u8>,
        Seq<u8>,
        Seq<u8>,
        Seq<u8>,
    ) {
        let n = self.spec_num_target_storage();
        (
            self.storage1@.subrange(0, n[0]),
            if output_mode == OutputMode::Display {
                Seq::empty()
            } else {
                self.storage2@.subrange(0, n[1])
            },
            self.storage_ip@.subrange(0, n[2]),
            self.storage_chance@.subrange(0, n[3]),
        )
    }

    /// The storage sizes that are kept when saving fit in the buffers.
    pub open spec fn target_slices_fit(&self) -> bool {
        let n = self.spec_num_target_storage();
        &&& n[0] <= self.storage1@.len()
        &&& n[1] <= self.storage2@.len()
        &&& n[2] <= self.storage_ip@.len()
        &&& n[3] <= self.storage_chance@.len()
    }

    /// Parts of the storage buffers written when the game is saved.
    pub fn target_storage_slices(&self, output_mode: OutputMode) -> (r: (&[u8], &[u8], &[u8], &[u8]))
        requires
            self.state.spec_index() > State::TreeBuilt.spec_index()
                && self.target_storage_mode == BoardState::River ==> self.element_bytes()
                * self.num_storage <= usize::MAX,
            self.state.spec_index() > State::TreeBuilt.spec_index()
                && self.target_storage_mode != BoardState::River ==> self.storage_layout_ok(),
            self.target_slices_fit(),
        ensures
            (r.0@, r.1@, r.2@, r.3@) == self.spec_target_slices(output_mode),
    {
        let n = self.num_target_storage();
        assert(n@.map_values(|x: usize| x as int)[0] == n[0]);
        assert(n@.map_values(|x: usize| x as int)[1] == n[1]);
        assert(n@.map_values(|x: usize| x as int)[2] == n[2]);
        assert(n@.map_values(|x: usize| x as int)[3] == n[3]);
        let s1 = vstd::slice::slice_subrange(self.storage1.as_slice(), 0, n[0]);
        let s2 = if output_mode.is_display() {
            vstd::slice::slice_subrange(self.storage2.as_slice(), 0, 0)
        } else {
            vstd::slice::slice_subrange(self.storage2.as_slice(), 0, n[1])
        };
        let s3 = vstd::slice::slice_subrange(self.storage_ip.as_slice(), 0, n[2]);
        let s4 = vstd::slice::slice_subrange(self.storage_chance.as_slice(), 0, n[3]);
        proof {
            if output_mode == OutputMode::Display {
                assert(s2@ =~= Seq::<u8>::empty());
            }
        }
        (s1, s2, s3, s4)
    }

    /// Number of arena nodes written when the game is saved: the flop nodes, the flop
    /// and turn nodes, or the whole arena, by target storage mode.
    pub open spec fn spec_num_encoded_nodes(&self) -> int {
        match self.target_storage_mode {
            BoardState::Flop => self.num_nodes[0] as int,
            BoardState::Turn => self.num_nodes[0] + self.num_nodes[1],
            BoardState::River => self.nodes@.len() as int,
        }
    }

    /// Number of arena nodes written when the game is saved.
    pub fn num_encoded_nodes(&self) -> (r: usize)
        requires
            self.target_storage_mode == BoardState::Flop ==> self.num_nodes[0] <= usize::MAX,
            self.target_storage_mode == BoardState::Turn ==> self.num_nodes[0]
                + self.num_nodes[1] <= usize::MAX,
        ensures
            r == self.spec_num_encoded_nodes(),
    {
        match self.target_storage_mode {
            BoardState::Flop => self.num_nodes[0] as usize,
            BoardState::Turn => (self.num_nodes[0] + self.num_nodes[1]) as usize,
            BoardState::River => self.nodes.len(),
        }
    }

    /// Memory is allocated (the storage buffers are in use).
    pub open spec fn memory_allocated(&self) -> bool {
        self.state.spec_index() >= State::MemoryAllocated.spec_index()
    }

    /// The river is kept and memory is allocated: the buffers that are not saved in
    /// that mode are rebuilt on load.
    pub open spec fn rebuilds_river_storage(&self) -> bool {
        self.memory_allocated() && self.storage_mode == BoardState::River
    }

    /// `n` zero bytes.
    pub open spec fn zeros(n: int) -> Seq<u8> {
        Seq::new(n as nat, |i: int| 0u8)
    }

    /// Regret storage once the game is loaded: regrets left out of a display-mode file
    /// are zero-filled once memory is allocated, and with the river kept, regrets
    /// shorter than their full size are zero-filled to it.
    pub open spec fn restored_storage2(&self, is_display_mode: bool) -> Seq<u8> {
        let full = self.element_bytes() * self.num_storage;
        let s2 = if self.memory_allocated() && is_display_mode && self.storage2@.len() == 0 {
            Self::zeros(full)
        } else {
            self.storage2@
        };
        if self.rebuilds_river_storage() && s2.len() < full {
            Self::zeros(full)
        } else {
            s2
        }
    }

    /// In-position storage once the game is loaded: zero-filled to its full size when
    /// the river is kept.
    pub open spec fn restored_storage_ip(&self) -> Seq<u8> {
        if self.rebuilds_river_storage() {
            Self::zeros(self.element_bytes() * self.num_storage_ip)
        } else {
            self.storage_ip@
        }
    }

    /// Chance storage once the game is loaded: zero-filled to its full size when the
    /// river is kept.
    pub open spec fn restored_storage_chance(&self) -> Seq<u8> {
        if self.rebuilds_river_storage() {
            Self::zeros(self.element_bytes() * self.num_storage_chance)
        } else {
            self.storage_chance@
        }
    }

    /// Completes the storage of a game just read from a file: the target storage mode
    /// becomes the storage mode read, and the buffers that the file leaves out are
    /// zero-filled (see [`Self::restored_storage2`], [`Self::restored_storage_ip`] and
    /// [`Self::restored_storage_chance`]); nothing else changes.
    pub fn restore_storage(&mut self, is_display_mode: bool)
        requires
            old(self).memory_allocated() ==> old(self).element_bytes() * old(self).num_storage
                <= usize::MAX,
            old(self).rebuilds_river_storage() ==> old(self).element_bytes() * old(
                self,
            ).num_storage_ip <= usize::MAX && old(self).element_bytes() * old(
                self,
            ).num_storage_chance <= usize::MAX,
        ensures
            final(self).storage2@ == old(self).restored_storage2(is_display_mode),
            final(self).storage_ip@ == old(self).restored_storage_ip(),
            final(self).storage_chance@ == old(self).restored_storage_chance(),
            *final(self) == (PostFlopGame {
                target_storage_mode: old(self).storage_mode,
                storage2: final(self).storage2,
                storage_ip: final(self).storage_ip,
                storage_chance: final(self).storage_chance,
                ..*old(self)
            }),
    {
        self.target_storage_mode = self.storage_mode;
        if self.state.index() >= 3 {
            let num_bytes: u64 = if self.is_compression_enabled { 2 } else { 4 };
            let full = (num_bytes * self.num_storage) as usize;
            if is_display_mode && self.storage2.len() == 0 {
                self.storage2 = vec![0u8; full];
            }
            if matches!(self.storage_mode, BoardState::River) {
                if self.storage2.len() < full {
                    self.storage2 = vec![0u8; full];
                }
                self.storage_ip = vec![0u8; (num_bytes * self.num_storage_ip) as usize];
                self.storage_chance = vec![0u8; (num_bytes * self.num_storage_chance) as usize];
            }
        }
    }

    /// The game can be saved: it is solved.
    pub fn is_ready_to_save(&self) -> (r: bool)
        ensures
            r == (self.state == State::Solved),
    {
        matches!(self.state, State::Solved)
    }

    /// Memory estimate written into the header when the game is saved: the memory the
    /// game needs once loaded with its target storage mode.
    pub fn estimated_memory_usage(&self) -> (r: u64)
        requires
            self.target_storage_mode != BoardState::River && self.state.spec_index()
                > State::TreeBuilt.spec_index() ==> self.storage_layout_ok(),
            self.target_storage_mode != BoardState::River ==> self.spec_target_memory_usage()
                <= u64::MAX,
        ensures
            r == self.spec_target_memory_usage(),
    {
        self.target_memory_usage()
    }

    /// Hole-card combinations of `player`, in the game's hand order.
    pub fn private_cards(&self, player: usize) -> (r: &[(Card, Card)])
        requires
            player < 2,
        ensures
            r@ == self.private_cards[player as int]@,
    {
        self.private_cards[player].as_slice()
    }

    /// Coarse flop score of the hole cards on this game's flop (see [`flop_strength`]).
    pub fn simple_hand_strength_flop(&self, c1: Card, c2: Card) -> (r: u32)
        ensures
            r == flop_strength(self.flop, c1, c2),
    {
        let (made, base) = made_score_exec(&self.flop, c1, c2);
        match made {
            Some(v) => v,
            None => {
                if has_flush_draw(&self.flop, c1, c2) {
                    2000 + base
                } else {
                    base
                }
            },
        }
    }
}

/// Version tag that starts the encoded body of a game.
pub open spec fn game_version() -> Seq<char> {
    seq!['2', '0', '2', '6', '-', '0', '1', '-', '2', '8']
}

/// Message for a game body written with another version tag.
pub open spec fn version_mismatch_message(got: Seq<char>) -> Seq<char> {
    "Version mismatch: expected '"@ + game_version() + "', but got '"@ + got + "'"@
}

/// Checks the version tag read at the start of a game body: only the current tag is
/// accepted; any other is refused with a message that names both.
pub fn check_game_version(version: &str) -> (r: Result<(), String>)
    ensures
        version@ == game_version() ==> r is Ok,
        version@ != game_version() ==> (r matches Err(e) && e@ == version_mismatch_message(version@)),
{
    let expected = "2026-01-28";
    proof {
        reveal_strlit("2026-01-28");
        assert(expected@ =~= game_version());
    }
    let n = version.unicode_len();
    let mut same = n == expected.unicode_len();
    let mut i: usize = 0;
    while same && i < n
        invariant
            n == version@.len(),
            same ==> n == expected@.len(),
            i <= n,
            same ==> forall|j: int| 0 <= j < i ==> version@[j] == expected@[j],
            !same ==> version@ != expected@,
        decreases n - i,
    {
        if version.get_char(i) != expected.get_char(i) {
            same = false;
        }
        i = i + 1;
    }
    proof {
        if same {
            assert(version@ =~= expected@);
        }
    }
    if same {
        Ok(())
    } else {
        let mut msg = String::from_str("Version mismatch: expected '");
        msg.append(expected);
        msg.append("', but got '");
        msg.append(version);
        msg.append("'");
        Err(msg)
    }
}

/// Law: with the flop, or the flop and turn, kept, the kept sizes end where the data of
/// the last kept decision node `a` (main and in-position storage) and of the last kept
/// chance node `c` end: offset plus the number of elements times the element size, which
/// is 2 bytes when compression is enabled and 4 otherwise, as for the river target.
pub proof fn lemma_partial_target_sizes(g: PostFlopGame, a: int, c: int)
    requires
        g.state.spec_index() > State::TreeBuilt.spec_index(),
        g.target_storage_mode != BoardState::River,
        0 <= a < g.target_node_bound(),
        0 <= c < g.target_node_bound(),
        g.target_node_bound() <= g.nodes@.len(),
        is_action(g.nodes@[a]),
        g.nodes@[c].is_chance,
        forall|i: int| a < i < g.target_node_bound() ==> !is_action(#[trigger] g.nodes@[i]),
        forall|i: int| c < i < g.target_node_bound() ==> !(#[trigger] g.nodes@[i]).is_chance,
    ensures
        ({
            let eb: int = if g.is_compression_enabled { 2 } else { 4 };
            let n = g.spec_num_target_storage();
            &&& n[0] == g.nodes@[a].storage1_offset + eb * g.nodes@[a].num_elements
            &&& n[1] == n[0]
            &&& n[2] == g.nodes@[a].storage_ip_offset + eb * g.nodes@[a].num_elements_ip
            &&& n[3] == g.nodes@[c].storage1_offset + eb * g.nodes@[c].num_elements
        }),
{
    let bound = g.target_node_bound();
    lemma_last_below(g.nodes@, bound);
    let la = last_action_below(g.nodes@, bound);
    let lc = last_chance_below(g.nodes@, bound);
    if la != a {
        if la < a {
            assert(!is_action(g.nodes@[a]));
        } else {
            assert(!is_action(g.nodes@[la]));
        }
    }
    if lc != c {
        if lc < c {
            assert(!g.nodes@[c].is_chance);
        } else {
            assert(!g.nodes@[lc].is_chance);
        }
    }
}

/// Law: with the river kept, the main storage keeps 2 bytes per element when compression
/// is enabled and 4 otherwise, and nothing else is kept.
pub proof fn lemma_river_target_sizes(g: PostFlopGame)
    requires
        g.state.spec_index() > State::TreeBuilt.spec_index(),
        g.target_storage_mode == BoardState::River,
    ensures
        g.spec_num_target_storage() == seq![
            (if g.is_compression_enabled { 2int } else { 4int }) * g.num_storage,
            0,
            0,
            0,
        ],
{
}

/// The storage buffers of `loaded` are those written for `saved` in `output_mode`, and
/// `loaded` has the saved game's state, sizes and compression, with the target storage
/// mode read as its storage mode.
pub open spec fn loaded_from(saved: PostFlopGame, loaded: PostFlopGame, output_mode: OutputMode) -> bool {
    &&& loaded.state == saved.state
    &&& loaded.storage_mode == saved.target_storage_mode
    &&& loaded.is_compression_enabled == saved.is_compression_enabled
    &&& loaded.num_storage == saved.num_storage
    &&& loaded.num_storage_ip == saved.num_storage_ip
    &&& loaded.num_storage_chance == saved.num_storage_chance
    &&& (loaded.storage1@, loaded.storage2@, loaded.storage_ip@, loaded.storage_chance@)
        == saved.spec_target_slices(output_mode)
}

/// Law: a game saved with the river kept and loaded back has its strategies (all of
/// them, when the strategy buffer has its full size) and zero-filled regrets,
/// in-position and chance storage of their full sizes, in either output mode.
pub proof fn lemma_river_storage_round_trip(
    saved: PostFlopGame,
    loaded: PostFlopGame,
    output_mode: OutputMode,
)
    requires
        saved.memory_allocated(),
        saved.target_storage_mode == BoardState::River,
        saved.storage1@.len() == saved.element_bytes() * saved.num_storage,
        loaded_from(saved, loaded, output_mode),
    ensures
        loaded.storage1@ == saved.storage1@,
        loaded.restored_storage2(output_mode == OutputMode::Display) == PostFlopGame::zeros(
            saved.element_bytes() * saved.num_storage,
        ),
        loaded.restored_storage_ip() == PostFlopGame::zeros(
            saved.element_bytes() * saved.num_storage_ip,
        ),
        loaded.restored_storage_chance() == PostFlopGame::zeros(
            saved.element_bytes() * saved.num_storage_chance,
        ),
{
    assert(saved.storage1@.subrange(0, saved.storage1@.len() as int) =~= saved.storage1@);
    assert(saved.storage2@.subrange(0, 0) =~= Seq::<u8>::empty());
    if saved.element_bytes() * saved.num_storage == 0 {
        assert(PostFlopGame::zeros(0) =~= Seq::<u8>::empty());
    }
}

/// Law: a game saved with only the flop, or the flop and turn, kept and loaded back holds
/// the saved prefixes of its buffers, except that in display mode the regrets are
/// zero-filled to their full size.
pub proof fn lemma_partial_storage_round_trip(
    saved: PostFlopGame,
    loaded: PostFlopGame,
    output_mode: OutputMode,
)
    requires
        saved.memory_allocated(),
        saved.target_storage_mode != BoardState::River,
        saved.storage_layout_ok(),
        saved.target_slices_fit(),
        loaded_from(saved, loaded, output_mode),
    ensures
        ({
            let n = saved.spec_num_target_storage();
            &&& loaded.storage1@ == saved.storage1@.subrange(0, n[0])
            &&& loaded.restored_storage2(output_mode == OutputMode::Display) == if output_mode
                == OutputMode::Display {
                PostFlopGame::zeros(saved.element_bytes() * saved.num_storage)
            } else {
                saved.storage2@.subrange(0, n[1])
            }
            &&& loaded.restored_storage_ip() == saved.storage_ip@.subrange(0, n[2])
            &&& loaded.restored_storage_chance() == saved.storage_chance@.subrange(0, n[3])
        }),
{
    let n = saved.spec_num_target_storage();
    assert(n[1] > 0);
}

} // verus!
