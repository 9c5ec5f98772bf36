//! Verified core of a post-flop poker solver: card-pair indexing, hand features and
//! turn-board bucketing, the betting tree and its flop-only arena layout, the `.flop`
//! file format, storage-mode bookkeeping of a solved game, the turn-boundary oracle
//! table and its hand-index mappings, reservoir sample buffers, device names, the
//! integer schedule of discounted CFR, and runout showdown counts.
pub mod card;
pub mod hand;
pub mod bucketing;
pub mod abstraction;
pub mod export;
pub mod action_tree;
pub mod encoder;
pub mod traversal;
pub mod codec;
pub mod compress;
pub mod file;
pub mod strength;
pub mod ev_map;
pub mod game;
pub mod oracle;
pub mod device;
pub mod buffer;
pub mod flop_tree;
pub mod cfr;
pub mod cluster;
