use rand::rngs::StdRng;
use rand::SeedableRng;
use sairen_mesh::adaptation::ReplayBuffer;

fn make_sample(formation: Option<&str>) -> Option<String> {
    formation.map(String::from)
}

#[test]
fn buffer_respects_max_size() {
    let mut buffer = ReplayBuffer::new(3);

    for i in 0..10 {
        buffer.add(make_sample(Some(&format!("formation_{i}"))));
    }

    assert_eq!(buffer.len(), 3);
}

#[test]
fn buffer_keeps_latest_samples_in_order() {
    let mut buffer = ReplayBuffer::new(3);
    for i in 0..10 {
        buffer.add(i);
    }
    assert_eq!(buffer.samples, vec![7, 8, 9]);
    let mut small = ReplayBuffer::new(5);
    small.add(1);
    small.add(2);
    assert_eq!(small.samples, vec![1, 2]);
    assert!(!small.is_empty());
}

#[test]
fn mixed_batch_has_correct_proportions() {
    let replay_fraction = 0.2f32; // 20% replay
    let mut buffer = ReplayBuffer::new(100);
    let mut rng = StdRng::seed_from_u64(42);

    for _ in 0..50 {
        buffer.add(make_sample(None));
    }

    let batch_size = 10usize;
    let n_replay = (batch_size as f32 * replay_fraction) as usize;
    let (live, replay) = buffer.mixed_batch_indices(100, batch_size, n_replay, &mut rng);

    // 10 batch, 20% replay = 2 replay, 8 live.
    assert_eq!(live.len(), 8);
    assert_eq!(replay.len(), 2);
    assert!(replay.iter().all(|&i| i < 50));
    assert_eq!(live, (0..8).collect::<Vec<usize>>());
}

#[test]
fn empty_buffer_returns_all_live() {
    let buffer: ReplayBuffer<Option<String>> = ReplayBuffer::new(100);
    let mut rng = StdRng::seed_from_u64(42);

    let (live, replay) = buffer.mixed_batch_indices(5, 10, 2, &mut rng);

    assert_eq!(live.len(), 5); // Only 5 live available.
    assert!(replay.is_empty());
    assert!(buffer.is_empty());
}

#[test]
fn replay_larger_than_batch_leaves_no_live() {
    let mut buffer = ReplayBuffer::new(4);
    buffer.add(0u8);
    let mut rng = StdRng::seed_from_u64(7);
    let (live, replay) = buffer.mixed_batch_indices(100, 3, 5, &mut rng);
    assert!(live.is_empty());
    assert_eq!(replay, vec![0; 5]);
}
