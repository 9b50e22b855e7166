use audio_pipeline::{
    decode_queue, decode_task, enqueue_bytes, on_socket_read, play_task,
    pulse_for_sample, read_frame_header, read_frame_payload, write_frame, ByteQueue, DecodeOutcome, Decoded,
    Error, IngestOutcome, PlayAction, Player, Pulse, SocketRead, QUEUE_CAPACITY,
};

#[test]
fn enqueue_bytes_stores_prefix() {
    let mut q = ByteQueue::new();
    let buf = [1u8, 2, 3, 4, 5];
    enqueue_bytes(&mut q, &buf, 3).unwrap();
    assert_eq!(q.len(), 3);
    let g = q.try_read().unwrap();
    assert_eq!(q.peek(&g, 0, 3).unwrap(), vec![1, 2, 3]);
    q.release(g, 3).unwrap();
}

#[test]
fn enqueue_bytes_busy_when_full() {
    let mut q = ByteQueue::new();
    let buf = vec![0u8; 4096];
    enqueue_bytes(&mut q, &buf, 4096).unwrap();
    enqueue_bytes(&mut q, &buf, 4096).unwrap();
    assert_eq!(enqueue_bytes(&mut q, &buf, 4096), Err(Error::Busy));
    assert_eq!(q.len(), 8192);
}

#[test]
fn socket_reads_drive_ingest() {
    let mut q = ByteQueue::new();
    let buf = vec![7u8; 4096];
    assert_eq!(on_socket_read(&mut q, &buf, SocketRead::Data(4096)), IngestOutcome::Stored);
    assert_eq!(on_socket_read(&mut q, &buf, SocketRead::Data(4096)), IngestOutcome::Stored);
    assert_eq!(on_socket_read(&mut q, &buf, SocketRead::Data(4096)), IngestOutcome::Dropped);
    assert_eq!(q.len(), 8192);
    assert_eq!(on_socket_read(&mut q, &buf, SocketRead::Data(0)), IngestOutcome::Closed);
    assert_eq!(on_socket_read(&mut q, &buf, SocketRead::Failed), IngestOutcome::Closed);
    assert_eq!(q.len(), 8192);
}

#[test]
fn decode_pass_releases_consumed_and_frames_pcm() {
    let mut ingest = ByteQueue::new();
    let mut playback = ByteQueue::new();
    let chunk = vec![0x55u8; 4096];
    enqueue_bytes(&mut ingest, &chunk, 4096).unwrap();
    enqueue_bytes(&mut ingest, &chunk, 4096).unwrap();
    let grant = ingest.try_read().unwrap();
    assert_eq!(grant.len(), 8192);
    let decoded = Decoded::Audio { consumed: 3800, samples: vec![0i16; 576] };
    let out = decode_task(&mut ingest, grant, &mut playback, &decoded);
    assert_eq!(out, DecodeOutcome::FrameReady { consumed: 3800 });
    assert_eq!(ingest.len(), 4096 * 2 - 3800);
    assert_eq!(ingest.len(), 4392);
    assert_eq!(playback.len(), 4 + 1152);
    let g = playback.try_read().unwrap();
    assert_eq!(read_frame_header(&playback, &g), Some(1152));
    assert_eq!(read_frame_payload(&playback, &g, 1152).unwrap(), vec![0u8; 1152]);
}

#[test]
fn decode_pass_drops_frame_when_playback_full() {
    let mut ingest = ByteQueue::new();
    let mut playback = ByteQueue::new();
    enqueue_bytes(&mut ingest, &[9u8; 100], 100).unwrap();
    enqueue_bytes(&mut playback, &vec![0u8; QUEUE_CAPACITY], QUEUE_CAPACITY).unwrap();
    let grant = ingest.try_read().unwrap();
    let decoded = Decoded::Audio { consumed: 60, samples: vec![1i16; 10] };
    let out = decode_task(&mut ingest, grant, &mut playback, &decoded);
    assert_eq!(out, DecodeOutcome::FrameDropped { consumed: 60 });
    assert_eq!(playback.len(), QUEUE_CAPACITY);
    assert_eq!(ingest.len(), 40);
    // the next pass goes on reading the ingest queue
    let grant = ingest.try_read().unwrap();
    assert_eq!(grant.len(), 40);
    let out = decode_task(&mut ingest, grant, &mut playback, &Decoded::Incomplete);
    assert_eq!(out, DecodeOutcome::NeedMore);
    assert_eq!(ingest.len(), 40);
}

#[test]
fn decode_pass_without_frame_releases_nothing() {
    let mut ingest = ByteQueue::new();
    let mut playback = ByteQueue::new();
    enqueue_bytes(&mut ingest, &[1u8; 50], 50).unwrap();
    let grant = ingest.try_read().unwrap();
    assert_eq!(decode_task(&mut ingest, grant, &mut playback, &Decoded::Incomplete), DecodeOutcome::NeedMore);
    assert_eq!(ingest.len(), 50);
    assert_eq!(playback.len(), 0);
}

#[test]
fn decode_pass_skips_non_audio() {
    let mut ingest = ByteQueue::new();
    let mut playback = ByteQueue::new();
    enqueue_bytes(&mut ingest, &[1u8; 50], 50).unwrap();
    let grant = ingest.try_read().unwrap();
    let out = decode_task(&mut ingest, grant, &mut playback, &Decoded::Skipped { consumed: 20 });
    assert_eq!(out, DecodeOutcome::Skipped { consumed: 20 });
    assert_eq!(ingest.len(), 30);
    assert_eq!(playback.len(), 0);
}

#[test]
fn decode_queue_writes_little_endian_samples() {
    let mut playback = ByteQueue::new();
    let decoded = Decoded::Audio { consumed: 1, samples: vec![-2, 3] };
    assert_eq!(decode_queue(&mut playback, &decoded), DecodeOutcome::FrameReady { consumed: 1 });
    let g = playback.try_read().unwrap();
    assert_eq!(playback.peek(&g, 0, 8).unwrap(), vec![4, 0, 0, 0, 0xfe, 0xff, 3, 0]);
}

#[test]
fn pulse_width_follows_sample() {
    assert_eq!(pulse_for_sample(i16::MIN), Pulse { low_us: 125, high_us: 0 });
    assert_eq!(pulse_for_sample(0), Pulse { low_us: 63, high_us: 62 });
    assert_eq!(pulse_for_sample(i16::MAX), Pulse { low_us: 1, high_us: 124 });
    assert_eq!(pulse_for_sample(-1), Pulse { low_us: 63, high_us: 62 });
    assert_eq!(pulse_for_sample(1000), Pulse { low_us: 61, high_us: 64 });
}

#[test]
fn player_plays_frame_then_goes_idle() {
    let mut q = ByteQueue::new();
    let mut player = Player::new();
    assert_eq!(play_task(&mut player, &mut q), PlayAction::Wait);
    assert!(!player.is_active());
    // samples i16::MIN and i16::MAX
    write_frame(&mut q, &[0x00, 0x80, 0xff, 0x7f]).unwrap();
    assert_eq!(play_task(&mut player, &mut q), PlayAction::Pulse(Pulse { low_us: 125, high_us: 0 }));
    assert!(player.is_active());
    assert_eq!(play_task(&mut player, &mut q), PlayAction::Pulse(Pulse { low_us: 1, high_us: 124 }));
    assert_eq!(q.len(), 8);
    assert_eq!(play_task(&mut player, &mut q), PlayAction::FrameDone);
    assert_eq!(q.len(), 0);
    assert_eq!(play_task(&mut player, &mut q), PlayAction::GoIdle);
    assert!(!player.is_active());
    assert_eq!(play_task(&mut player, &mut q), PlayAction::Wait);
}

#[test]
fn player_releases_empty_frame() {
    let mut q = ByteQueue::new();
    let mut player = Player::new();
    write_frame(&mut q, &[]).unwrap();
    write_frame(&mut q, &[0x01]).unwrap();
    assert_eq!(play_task(&mut player, &mut q), PlayAction::FrameDone);
    assert_eq!(play_task(&mut player, &mut q), PlayAction::FrameDone);
    assert_eq!(q.len(), 0);
    assert!(!player.is_active());
}

#[test]
fn player_follows_frames_in_order() {
    let mut q = ByteQueue::new();
    let mut player = Player::new();
    write_frame(&mut q, &[0x00, 0x00]).unwrap();
    write_frame(&mut q, &[0xff, 0x7f]).unwrap();
    assert_eq!(play_task(&mut player, &mut q), PlayAction::Pulse(Pulse { low_us: 63, high_us: 62 }));
    assert_eq!(play_task(&mut player, &mut q), PlayAction::FrameDone);
    assert_eq!(play_task(&mut player, &mut q), PlayAction::Pulse(Pulse { low_us: 1, high_us: 124 }));
    assert_eq!(play_task(&mut player, &mut q), PlayAction::FrameDone);
    assert_eq!(play_task(&mut player, &mut q), PlayAction::GoIdle);
}

#[test]
fn decoded_frame_reaches_player() {
    let mut ingest = ByteQueue::new();
    let mut playback = ByteQueue::new();
    enqueue_bytes(&mut ingest, &[0u8; 10], 10).unwrap();
    let grant = ingest.try_read().unwrap();
    let decoded = Decoded::Audio { consumed: 10, samples: vec![i16::MAX] };
    decode_task(&mut ingest, grant, &mut playback, &decoded);
    let mut player = Player::new();
    assert_eq!(play_task(&mut player, &mut playback), PlayAction::Pulse(Pulse { low_us: 1, high_us: 124 }));
    assert_eq!(play_task(&mut player, &mut playback), PlayAction::FrameDone);
    assert_eq!(playback.len(), 0);
}

#[test]
fn two_chunks_then_one_decode_pass() {
    let mut ingest = ByteQueue::new();
    let mut playback = ByteQueue::new();
    let first: Vec<u8> = (0..4096u32).map(|i| (i % 200) as u8).collect();
    let second: Vec<u8> = (0..4096u32).map(|i| (i % 100) as u8).collect();
    enqueue_bytes(&mut ingest, &first, 4096).unwrap();
    enqueue_bytes(&mut ingest, &second, 4096).unwrap();
    let grant = ingest.try_read().unwrap();
    let samples: Vec<i16> = (0..576).map(|i| i as i16 - 288).collect();
    let out = decode_task(&mut ingest, grant, &mut playback, &Decoded::Audio { consumed: 3800, samples: samples.clone() });
    assert_eq!(out, DecodeOutcome::FrameReady { consumed: 3800 });
    let rest = ingest.try_read().unwrap();
    assert_eq!(rest.len(), 4392);
    let mut all = first.clone();
    all.extend(second);
    assert_eq!(ingest.peek(&rest, 0, 4392).unwrap(), all[3800..].to_vec());
    let g = playback.try_read().unwrap();
    assert_eq!(playback.peek(&g, 0, 4).unwrap(), vec![0x80, 0x04, 0, 0]);
    let payload = read_frame_payload(&playback, &g, 1152).unwrap();
    let expected: Vec<u8> = samples.iter().flat_map(|s| s.to_le_bytes()).collect();
    assert_eq!(payload, expected);
}

#[test]
fn player_waits_on_a_frame_longer_than_the_run() {
    let mut q = ByteQueue::new();
    // a header announcing 8 payload bytes with only 2 behind it
    enqueue_bytes(&mut q, &[8, 0, 0, 0, 1, 2], 6).unwrap();
    let mut player = Player::new();
    assert_eq!(play_task(&mut player, &mut q), PlayAction::Wait);
    assert_eq!(q.len(), 6);
    assert!(!player.is_active());
}

#[test]
fn decoder_count_beyond_the_run_is_refused() {
    let mut ingest = ByteQueue::new();
    let mut playback = ByteQueue::new();
    enqueue_bytes(&mut ingest, &[1u8; 50], 50).unwrap();
    let grant = ingest.try_read().unwrap();
    let decoded = Decoded::Audio { consumed: 51, samples: vec![1, 2] };
    assert_eq!(decode_task(&mut ingest, grant, &mut playback, &decoded), DecodeOutcome::Rejected { consumed: 51 });
    assert_eq!(ingest.len(), 50);
    assert_eq!(playback.len(), 0);
    // the grant was closed: the next pass can read again
    let grant = ingest.try_read().unwrap();
    assert_eq!(grant.len(), 50);
}

#[test]
fn run_borrows_the_granted_bytes() {
    let mut ingest = ByteQueue::new();
    enqueue_bytes(&mut ingest, &[4u8, 5, 6], 3).unwrap();
    let grant = ingest.try_read().unwrap();
    assert_eq!(ingest.run(&grant).unwrap(), &[4u8, 5, 6][..]);
    let other = ByteQueue::new();
    assert!(other.run(&grant).is_none());
    ingest.release(grant, 3).unwrap();
}
