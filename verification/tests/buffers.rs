use postflop_solver::buffer::{AdvantageBuffer, ReservoirBuffer, Sample};

#[test]
fn reservoir_holds_distinct_seen_samples() {
    let mut buffer = ReservoirBuffer::new(10);
    for i in 0..100usize {
        buffer.add(Sample::new(vec![i as f32], vec![0.0f32], i, i % 2, 1.0));
    }
    let mut iterations: Vec<usize> = buffer.samples().iter().map(|s| s.iteration).collect();
    assert_eq!(iterations.len(), 10);
    assert!(iterations.iter().all(|&it| it < 100));
    iterations.sort();
    iterations.dedup();
    assert_eq!(iterations.len(), 10);
}

#[test]
fn reservoir_keeps_order_until_full() {
    let mut buffer = ReservoirBuffer::new(5);
    for i in 0..5usize {
        buffer.add(Sample::new(vec![], vec![], i, 0, 0.5f32));
    }
    let its: Vec<usize> = buffer.samples().iter().map(|s| s.iteration).collect();
    assert_eq!(its, vec![0, 1, 2, 3, 4]);
    let ranged: Vec<usize> = buffer.samples_in_range(1, 3).iter().map(|s| s.iteration).collect();
    assert_eq!(ranged, vec![1, 2, 3]);
}

#[test]
fn reservoir_batch_and_clear() {
    let mut buffer: ReservoirBuffer<f32> = ReservoirBuffer::new(4);
    assert!(buffer.sample_batch(3).is_empty());
    assert!(buffer.is_empty());
    for i in 0..3usize {
        buffer.add(Sample::new(vec![], vec![], i, 1, 1.0));
    }
    let batch = buffer.sample_batch(10);
    assert_eq!(batch.len(), 3);
    assert!(batch.iter().all(|s| s.iteration < 3));
    buffer.clear();
    assert_eq!(buffer.len(), 0);
    assert_eq!(buffer.total_seen(), 0);
    assert!(buffer.samples_for_player(1).is_empty());
}

#[test]
fn advantage_buffer_adds_samples() {
    let mut buffer = AdvantageBuffer::new(8);
    for i in 0..6usize {
        buffer.add(vec![1.0f32], vec![2.0], i, i % 3, 0.25);
    }
    assert_eq!(buffer.len(), 6);
    assert_eq!(buffer.samples_for_player(0).len(), 2);
    assert_eq!(buffer.samples()[5].weight, 0.25);
    assert_eq!(buffer.sample_batch(4).len(), 4);
    buffer.clear();
    assert!(buffer.is_empty());
}

#[test]
fn reservoir_add_batch() {
    let mut buffer = ReservoirBuffer::new(6);
    let batch: Vec<Sample<f32>> = (0..4usize).map(|i| Sample::new(vec![], vec![], i, 0, 1.0)).collect();
    buffer.add_batch(batch);
    let its: Vec<usize> = buffer.samples().iter().map(|s| s.iteration).collect();
    assert_eq!(its, vec![0, 1, 2, 3]);
    let more: Vec<Sample<f32>> = (4..20usize).map(|i| Sample::new(vec![], vec![], i, 0, 1.0)).collect();
    buffer.add_batch(more);
    assert_eq!(buffer.len(), 6);
    assert_eq!(buffer.total_seen(), 20);
}
