use postflop_solver::abstraction::AbstractionConfig;
use postflop_solver::bucketing::{compute_buckets, BLOCKED_BUCKET};
use postflop_solver::buffer::{ReservoirBuffer, Sample};
use postflop_solver::card::Card;
use postflop_solver::export::ExportConfig;
use postflop_solver::traversal::hands_conflict;

const TEST_BOARD: [Card; 4] = [33, 29, 18, 40];

#[test]
fn test_abstraction_config_default() {
    let config = AbstractionConfig::default();
    assert_eq!(config.num_buckets, 50);
    assert_eq!(config.max_iterations, 100);
}

#[test]
fn test_k_larger_than_valid() {
    // There are 1128 valid hands; requesting 2000 should not panic
    let buckets = compute_buckets(&TEST_BOARD, 2000, &[]);
    assert_eq!(buckets.k, 1128);
    assert_eq!(buckets.num_valid, 1128);

    // Each hand should get a unique bucket 0..1127
    let mut seen = vec![false; 1128];
    for &b in &buckets.hand_to_bucket {
        if b != BLOCKED_BUCKET {
            assert!((b as usize) < 1128);
            seen[b as usize] = true;
        }
    }
    assert!(seen.iter().all(|&s| s));
}

#[test]
fn test_export_config_default() {
    let config = ExportConfig::default();
    assert!(config.include_full_strategies);
    assert!(!config.compress);
    assert!(config.compression_level.is_none());
}

#[test]
fn test_hands_conflict() {
    assert!(hands_conflict((0, 1), (1, 2))); // Share card 1
    assert!(hands_conflict((0, 1), (0, 2))); // Share card 0
    assert!(!hands_conflict((0, 1), (2, 3))); // No conflict
}

#[test]
fn test_reservoir_basic() {
    let mut buffer = ReservoirBuffer::new(10);

    for i in 0..5 {
        buffer.add(Sample::new(vec![i as f32], vec![0.0], i, 0, 1.0));
    }

    assert_eq!(buffer.len(), 5);
    assert_eq!(buffer.total_seen(), 5);
}

#[test]
fn test_reservoir_overflow() {
    let mut buffer = ReservoirBuffer::new(10);

    for i in 0..100 {
        buffer.add(Sample::new(vec![i as f32], vec![0.0], i, 0, 1.0));
    }

    assert_eq!(buffer.len(), 10); // Capped at capacity
    assert_eq!(buffer.total_seen(), 100);
}

#[test]
fn test_sample_batch() {
    let mut buffer = ReservoirBuffer::new(100);

    for i in 0..50 {
        buffer.add(Sample::new(vec![i as f32], vec![0.0], i, 0, 1.0));
    }

    let batch = buffer.sample_batch(10);
    assert_eq!(batch.len(), 10);
}

#[test]
fn test_player_filter() {
    let mut buffer = ReservoirBuffer::new(100);

    for i in 0..20 {
        let player = i % 2;
        buffer.add(Sample::new(vec![i as f32], vec![0.0], i, player, 1.0));
    }

    let player0_samples = buffer.samples_for_player(0);
    let player1_samples = buffer.samples_for_player(1);

    assert_eq!(player0_samples.len(), 10);
    assert_eq!(player1_samples.len(), 10);
}
