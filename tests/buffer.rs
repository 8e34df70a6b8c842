use pitch_display::buffer::{new, Chunk, QUEUE_CAPACITY};

fn ramp(start: u32, len: u32) -> Vec<u32> {
    (start..start + len).collect()
}

#[test]
fn three_chunks_served_as_exact_windows() {
    let (producer, mut consumer) = new::<u32>();
    let c1 = ramp(0, 4096);
    let c2 = ramp(4096, 2048);
    let c3 = ramp(6144, 100);
    producer.write(&c1);
    producer.write(&c2);
    producer.write(&c3);
    assert_eq!(consumer.read(4096).unwrap(), c1);
    assert_eq!(consumer.read(2048).unwrap(), c2);
    drop(producer);
    // the third chunk is still buffered in full
    assert_eq!(consumer.read(100).unwrap(), c3);
    assert!(consumer.read(1).is_err());
}

#[test]
fn closed_producer_gives_no_partial_window() {
    let (producer, mut consumer) = new::<f32>();
    let data = vec![0.5f32; 500];
    producer.write(&data);
    drop(producer);
    assert!(consumer.read(1000).is_err());
    // what arrived stays buffered rather than being lost
    assert_eq!(consumer.read(500).unwrap(), data);
}

#[test]
fn windows_split_across_chunk_boundaries() {
    let (producer, mut consumer) = new::<u32>();
    for k in 0..5 {
        producer.write(&ramp(3 * k, 3));
    }
    drop(producer);
    assert_eq!(consumer.read(5).unwrap(), vec![0, 1, 2, 3, 4]);
    assert_eq!(consumer.read(5).unwrap(), vec![5, 6, 7, 8, 9]);
    assert_eq!(consumer.read(5).unwrap(), vec![10, 11, 12, 13, 14]);
    assert!(consumer.read(5).is_err());
}

#[test]
fn reads_reconstruct_written_order() {
    let (producer, mut consumer) = new::<u32>();
    let sizes = [7u32, 1, 13, 2, 9, 4];
    let mut start = 0u32;
    for s in sizes {
        producer.write(&ramp(start, s));
        start += s;
    }
    drop(producer);
    let mut out = Vec::new();
    for n in [10usize, 3, 12, 11] {
        let w = consumer.read(n).unwrap();
        assert_eq!(w.len(), n);
        out.extend(w);
    }
    assert_eq!(out, ramp(0, 36));
    assert!(consumer.read(1).is_err());
}

#[test]
fn read_zero_returns_empty_window() {
    let (_producer, mut consumer) = new::<u32>();
    assert_eq!(consumer.read(0).unwrap(), Vec::<u32>::new());
}

#[test]
fn full_channel_drops_without_blocking() {
    let (producer, mut consumer) = new::<u32>();
    let total = QUEUE_CAPACITY as u32 + 500;
    for i in 0..total {
        let chunk = vec![i];
        producer.write(&chunk);
        assert_eq!(chunk, vec![i]);
    }
    drop(producer);
    let kept = consumer.read(QUEUE_CAPACITY).unwrap();
    assert_eq!(kept, ramp(0, QUEUE_CAPACITY as u32));
    assert!(consumer.read(1).is_err());
}

#[test]
fn empty_write_sends_nothing() {
    let (producer, mut consumer) = new::<u32>();
    producer.write(&[]);
    producer.write(&[1, 2]);
    drop(producer);
    assert_eq!(consumer.read(2).unwrap(), vec![1, 2]);
    assert!(consumer.read(1).is_err());
}

#[test]
fn chunk_from_empty_slice_is_none() {
    assert!(Chunk::<u32>::from_slice(&[]).is_none());
    assert!(Chunk::from_slice(&[3u32]).is_some());
}

#[test]
fn accepted_chunks_are_served_before_the_channel() {
    let (producer, mut consumer) = new::<u32>();
    producer.write(&[4, 5, 6]);
    consumer.accept(Chunk::from_slice(&[1, 2, 3]).unwrap());
    assert_eq!(consumer.read(2).unwrap(), vec![1, 2]);
    assert_eq!(consumer.read(3).unwrap(), vec![3, 4, 5]);
    drop(producer);
    assert_eq!(consumer.read(1).unwrap(), vec![6]);
    assert!(consumer.read(1).is_err());
}
