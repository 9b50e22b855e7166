use audio_pipeline::{ByteQueue, Error, QUEUE_CAPACITY};

fn push(q: &mut ByteQueue, data: &[u8]) {
    let g = q.try_reserve_write(data.len()).unwrap();
    q.fill(&g, 0, data).unwrap();
    q.commit(g, data.len()).unwrap();
}

fn pop_all(q: &mut ByteQueue) -> Vec<u8> {
    let mut out = Vec::new();
    while let Ok(g) = q.try_read() {
        let n = g.len();
        out.extend(q.peek(&g, 0, n).unwrap());
        q.release(g, n).unwrap();
    }
    out
}

#[test]
fn new_queue_is_empty() {
    let mut q = ByteQueue::new();
    assert_eq!(q.len(), 0);
    assert_eq!(q.capacity(), QUEUE_CAPACITY);
    assert_eq!(q.free(), QUEUE_CAPACITY);
    assert_eq!(q.try_read().unwrap_err(), Error::Empty);
}

#[test]
fn committed_bytes_come_back_in_order() {
    let mut q = ByteQueue::new();
    push(&mut q, &[1, 2, 3]);
    push(&mut q, &[4, 5]);
    push(&mut q, &[6]);
    assert_eq!(q.len(), 6);
    assert_eq!(pop_all(&mut q), vec![1, 2, 3, 4, 5, 6]);
    assert_eq!(q.len(), 0);
}

#[test]
fn fifo_survives_wrap_around() {
    let mut q = ByteQueue::new();
    let mut expected = Vec::new();
    let mut got = Vec::new();
    for round in 0..40u32 {
        let chunk: Vec<u8> = (0..1000u32).map(|i| ((i * 7 + round) % 251) as u8).collect();
        push(&mut q, &chunk);
        expected.extend(chunk);
        if round % 3 != 0 {
            got.extend(pop_all(&mut q));
        }
    }
    got.extend(pop_all(&mut q));
    assert_eq!(got, expected);
}

#[test]
fn partial_commit_keeps_only_used_bytes() {
    let mut q = ByteQueue::new();
    let g = q.try_reserve_write(8).unwrap();
    assert_eq!(g.len(), 8);
    q.fill(&g, 0, &[9, 8, 7, 6, 5, 4, 3, 2]).unwrap();
    q.commit(g, 3).unwrap();
    assert_eq!(q.len(), 3);
    assert_eq!(pop_all(&mut q), vec![9, 8, 7]);
}

#[test]
fn reservation_larger_than_free_space_is_busy_and_changes_nothing() {
    let mut q = ByteQueue::new();
    push(&mut q, &vec![1u8; QUEUE_CAPACITY - 10]);
    assert_eq!(q.try_reserve_write(11).unwrap_err(), Error::Busy);
    assert_eq!(q.len(), QUEUE_CAPACITY - 10);
    assert_eq!(q.free(), 10);
    let g = q.try_reserve_write(10).unwrap();
    q.commit(g, 0).unwrap();
    assert_eq!(q.len(), QUEUE_CAPACITY - 10);
}

#[test]
fn reservation_larger_than_capacity_is_busy() {
    let mut q = ByteQueue::new();
    assert_eq!(q.try_reserve_write(QUEUE_CAPACITY + 1).unwrap_err(), Error::Busy);
    assert_eq!(q.len(), 0);
}

#[test]
fn queue_fills_to_exact_capacity() {
    let mut q = ByteQueue::new();
    push(&mut q, &vec![3u8; QUEUE_CAPACITY]);
    assert_eq!(q.len(), QUEUE_CAPACITY);
    assert_eq!(q.free(), 0);
    assert_eq!(q.try_reserve_write(1).unwrap_err(), Error::Busy);
}

#[test]
fn second_write_grant_is_refused() {
    let mut q = ByteQueue::new();
    let g = q.try_reserve_write(4).unwrap();
    assert_eq!(q.free(), QUEUE_CAPACITY - 4);
    assert_eq!(q.try_reserve_write(1).unwrap_err(), Error::GrantInProgress);
    q.commit(g, 4).unwrap();
    assert_eq!(q.len(), 4);
}

#[test]
fn second_read_grant_is_refused() {
    let mut q = ByteQueue::new();
    push(&mut q, &[1, 2]);
    let g = q.try_read().unwrap();
    assert_eq!(q.try_read().unwrap_err(), Error::GrantInProgress);
    q.release(g, 2).unwrap();
}

#[test]
fn fill_outside_grant_is_refused() {
    let mut q = ByteQueue::new();
    let g = q.try_reserve_write(4).unwrap();
    assert_eq!(q.fill(&g, 2, &[1, 2, 3]), Err(Error::OutOfGrant));
    assert_eq!(q.fill(&g, 5, &[]), Err(Error::OutOfGrant));
    q.fill(&g, 2, &[1, 2]).unwrap();
    q.fill(&g, 0, &[7, 8]).unwrap();
    q.commit(g, 4).unwrap();
    assert_eq!(pop_all(&mut q), vec![7, 8, 1, 2]);
}

#[test]
fn over_commit_is_refused() {
    let mut q = ByteQueue::new();
    let g = q.try_reserve_write(4).unwrap();
    let g = q.commit(g, 5).unwrap_err();
    assert_eq!(q.len(), 0);
    q.commit(g, 4).unwrap();
    assert_eq!(q.len(), 4);
}

#[test]
fn over_release_is_refused_and_changes_nothing() {
    let mut q = ByteQueue::new();
    push(&mut q, &[1, 2, 3, 4]);
    let g = q.try_read().unwrap();
    assert_eq!(g.len(), 4);
    let g = q.release(g, 5).unwrap_err();
    assert_eq!(g.len(), 4);
    assert_eq!(q.len(), 4);
    assert_eq!(q.peek(&g, 0, 4).unwrap(), vec![1, 2, 3, 4]);
    q.release(g, 1).unwrap();
    assert_eq!(q.len(), 3);
    assert_eq!(pop_all(&mut q), vec![2, 3, 4]);
}

#[test]
fn peek_outside_grant_is_none() {
    let mut q = ByteQueue::new();
    push(&mut q, &[1, 2, 3]);
    let g = q.try_read().unwrap();
    assert_eq!(q.peek(&g, 1, 3).unwrap(), vec![2, 3]);
    assert!(q.peek(&g, 2, 4).is_none());
    assert!(q.peek(&g, 2, 1).is_none());
    q.release(g, 0).unwrap();
    assert_eq!(q.len(), 3);
}

#[test]
fn grant_of_another_queue_is_refused() {
    let mut a = ByteQueue::new();
    let mut b = ByteQueue::new();
    push(&mut a, &[1, 2]);
    let g = a.try_read().unwrap();
    let g = b.release(g, 1).unwrap_err();
    a.release(g, 1).unwrap();
    assert_eq!(a.len(), 1);
}

#[test]
fn reservation_wraps_to_the_front_when_it_fits_there() {
    let mut q = ByteQueue::new();
    push(&mut q, &vec![1u8; 6000]);
    pop_all(&mut q);
    // 5000 bytes do not fit after the write cursor, but do before the read cursor
    let g = q.try_reserve_write(5000).unwrap();
    q.fill(&g, 0, &vec![2u8; 5000]).unwrap();
    q.commit(g, 5000).unwrap();
    assert_eq!(pop_all(&mut q), vec![2u8; 5000]);
}

#[test]
fn reservation_that_fits_nowhere_contiguous_is_busy() {
    let mut q = ByteQueue::new();
    push(&mut q, &vec![1u8; 6000]);
    pop_all(&mut q);
    // empty, but 7000 contiguous bytes are neither after the cursor nor before it
    assert_eq!(q.try_reserve_write(7000).unwrap_err(), Error::Busy);
    assert_eq!(q.len(), 0);
    // half the capacity is always granted
    let g = q.try_reserve_write(QUEUE_CAPACITY / 2).unwrap();
    q.commit(g, 0).unwrap();
}

#[test]
fn read_grant_stops_at_the_wrap() {
    let mut q = ByteQueue::new();
    push(&mut q, &vec![1u8; 6000]);
    let g = q.try_read().unwrap();
    q.release(g, 5000).unwrap();
    push(&mut q, &vec![2u8; 4240]);
    // the second chunk ends exactly at the capacity; the next one wraps
    push(&mut q, &vec![3u8; 100]);
    let g = q.try_read().unwrap();
    assert_eq!(g.len(), 1000 + 4240);
    q.release(g, 5240).unwrap();
    let g = q.try_read().unwrap();
    assert_eq!(g.len(), 100);
    assert_eq!(q.peek_byte(&g, 99), Some(3));
    assert_eq!(q.peek_byte(&g, 100), None);
    q.release(g, 100).unwrap();
    assert_eq!(q.len(), 0);
}
