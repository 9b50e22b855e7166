//! Length-prefixed frames inside a byte queue: a four-byte little-endian
//! payload length followed by the payload. A frame is reserved, filled and
//! committed as one grant, so a header never stands without its payload.

use crate::bytes::{
    decode_u32_le, encode_i16_le, encode_u32_le, le_u32, lemma_le_u32_round_trip, lemma_pcm_bytes_len, pcm_bytes,
    u32_le_bytes,
};
use crate::error::Error;
use crate::ring::{ByteQueue, QueueView, ReadGrant, QUEUE_CAPACITY};
use vstd::prelude::*;

verus! {

/// Bytes of the length header in front of each frame.
pub const HEADER_LEN: usize = 4;

/// Largest payload a frame can carry in a queue.
pub const MAX_PAYLOAD: usize = QUEUE_CAPACITY - HEADER_LEN;

/// The bytes of one frame carrying `payload`.
pub open spec fn frame_bytes(payload: Seq<u8>) -> Seq<u8> {
    u32_le_bytes(payload.len() as u32) + payload
}

/// The payload length that the header at the front of `bytes` announces.
pub open spec fn header_of(bytes: Seq<u8>) -> nat {
    le_u32(bytes.take(HEADER_LEN as int))
}

/// A frame read back from the front of whatever follows it gives its
/// payload and the payload's length, and leaves exactly what followed.
pub proof fn lemma_frame_round_trip(payload: Seq<u8>, rest: Seq<u8>)
    requires
        payload.len() <= MAX_PAYLOAD,
    ensures
        header_of(frame_bytes(payload) + rest) == payload.len(),
        (frame_bytes(payload) + rest).subrange(HEADER_LEN as int, HEADER_LEN + payload.len()) == payload,
        (frame_bytes(payload) + rest).skip(HEADER_LEN + payload.len()) == rest,
{
    let n = payload.len() as u32;
    lemma_le_u32_round_trip(n);
    let s = frame_bytes(payload) + rest;
    assert(s.take(HEADER_LEN as int) =~= u32_le_bytes(n));
    assert(s.subrange(HEADER_LEN as int, HEADER_LEN + payload.len()) =~= payload);
    assert(s.skip(HEADER_LEN + payload.len()) =~= rest);
}

/// Frames come out in the order they were written: once the first of two
/// frames has been released whole, the front of the queue is the second
/// frame, whose header and payload read back as written.
pub proof fn lemma_frames_in_order(first: Seq<u8>, second: Seq<u8>, rest: Seq<u8>)
    requires
        first.len() <= MAX_PAYLOAD,
        second.len() <= MAX_PAYLOAD,
    ensures
        (frame_bytes(first) + frame_bytes(second) + rest).skip(HEADER_LEN + first.len()) == frame_bytes(second) + rest,
        header_of(frame_bytes(second) + rest) == second.len(),
        (frame_bytes(second) + rest).subrange(HEADER_LEN as int, HEADER_LEN + second.len()) == second,
{
    let tail = frame_bytes(second) + rest;
    assert(frame_bytes(first) + frame_bytes(second) + rest =~= frame_bytes(first) + tail);
    lemma_frame_round_trip(first, tail);
    lemma_frame_round_trip(second, rest);
}

/// Writes one frame carrying `payload` as a single reservation of
/// `HEADER_LEN + payload.len()` bytes, so that a header never stands
/// without its payload. Succeeds exactly when the payload fits in a frame,
/// no write grant is open and the queue has room for the frame, which it
/// always has when the frame and the stored bytes fill at most half the
/// capacity. Otherwise `TooLarge`, `GrantInProgress` or `Busy`, and the
/// queue is unchanged.
pub fn write_frame(queue: &mut ByteQueue, payload: &[u8]) -> (r: Result<(), Error>)
    requires
        old(queue).wf(),
    ensures
        final(queue).wf(),
        payload@.len() > MAX_PAYLOAD ==> r == Err::<(), Error>(Error::TooLarge),
        payload@.len() <= MAX_PAYLOAD && old(queue)@.writing is Some
            ==> r == Err::<(), Error>(Error::GrantInProgress),
        payload@.len() <= MAX_PAYLOAD && old(queue)@.writing is None
            ==> (r is Ok <==> old(queue)@.can_reserve((HEADER_LEN + payload@.len()) as nat)),
        payload@.len() <= MAX_PAYLOAD && old(queue)@.writing is None && r is Err
            ==> r == Err::<(), Error>(Error::Busy),
        payload@.len() <= MAX_PAYLOAD && old(queue)@.writing is None
            && HEADER_LEN + payload@.len() + old(queue)@.bytes.len() <= QUEUE_CAPACITY / 2 ==> r is Ok,
        r is Err ==> final(queue)@ == old(queue)@,
        r is Ok ==> final(queue)@ == old(queue)@.appended(frame_bytes(payload@)),
{
    if payload.len() > MAX_PAYLOAD {
        return Err(Error::TooLarge);
    }
    let total = HEADER_LEN + payload.len();
    let grant = match queue.try_reserve_write(total) {
        Ok(g) => g,
        Err(e) => return Err(e),
    };
    let ghost reserved = queue@.writing->0;
    let header = encode_u32_le(payload.len() as u32);
    let _ = queue.fill(&grant, 0, &header);
    let ghost after_header = queue@.writing->0;
    let _ = queue.fill(&grant, HEADER_LEN, payload);
    let ghost filled = queue@.writing->0;
    assert(filled =~= frame_bytes(payload@)) by {
        assert(after_header =~= u32_le_bytes(payload@.len() as u32) + reserved.subrange(4, total as int));
    }
    match queue.commit(grant, total) {
        Ok(()) => {
            assert(filled.take(total as int) =~= filled);
            assert(queue@ == old(queue)@.appended(frame_bytes(payload@)));
            Ok(())
        },
        Err(_) => Err(Error::OutOfGrant),
    }
}

/// Writes one frame whose payload is the little-endian PCM bytes of
/// `samples`, straight into a single reservation: no buffer is built for
/// the payload. Succeeds exactly when the payload fits in a frame, no
/// write grant is open and the queue has room for the frame; otherwise
/// `TooLarge`, `GrantInProgress` or `Busy`, and the queue is unchanged.
pub fn write_pcm_frame(queue: &mut ByteQueue, samples: &[i16]) -> (r: Result<(), Error>)
    requires
        old(queue).wf(),
    ensures
        final(queue).wf(),
        2 * samples@.len() > MAX_PAYLOAD ==> r == Err::<(), Error>(Error::TooLarge),
        2 * samples@.len() <= MAX_PAYLOAD && old(queue)@.writing is Some
            ==> r == Err::<(), Error>(Error::GrantInProgress),
        2 * samples@.len() <= MAX_PAYLOAD && old(queue)@.writing is None
            ==> (r is Ok <==> old(queue)@.can_reserve((HEADER_LEN + 2 * samples@.len()) as nat)),
        2 * samples@.len() <= MAX_PAYLOAD && old(queue)@.writing is None && r is Err
            ==> r == Err::<(), Error>(Error::Busy),
        r is Err ==> final(queue)@ == old(queue)@,
        r is Ok ==> final(queue)@ == old(queue)@.appended(frame_bytes(pcm_bytes(samples@))),
{
    if samples.len() > MAX_PAYLOAD / 2 {
        return Err(Error::TooLarge);
    }
    let length = 2 * samples.len();
    let total = HEADER_LEN + length;
    let grant = match queue.try_reserve_write(total) {
        Ok(g) => g,
        Err(e) => return Err(e),
    };
    let ghost reserved = queue@;
    let ghost rb = queue@.writing->0;
    let header = encode_u32_le(length as u32);
    let _ = queue.fill(&grant, 0, &header);
    let mut i: usize = 0;
    while i < samples.len()
        invariant
            queue.wf(),
            0 <= i <= samples@.len(),
            2 * samples@.len() <= MAX_PAYLOAD,
            length == 2 * samples@.len(),
            total == HEADER_LEN + length,
            grant@ == total,
            rb.len() == total,
            queue@ == (QueueView {
                writing: Some(
                    u32_le_bytes(length as u32) + pcm_bytes(samples@.take(i as int)) + rb.subrange(
                        HEADER_LEN + 2 * i,
                        total as int,
                    ),
                ),
                ..reserved
            }),
        decreases samples@.len() - i,
    {
        proof {
            lemma_pcm_bytes_len(samples@.take(i as int));
        }
        let pair = encode_i16_le(samples[i]);
        let ghost before = queue@.writing->0;
        let _ = queue.fill(&grant, HEADER_LEN + 2 * i, &pair);
        proof {
            let t = samples@.take(i + 1);
            assert(t.drop_last() =~= samples@.take(i as int));
            assert(t.last() == samples@[i as int]);
            lemma_pcm_bytes_len(t);
            assert(queue@.writing->0 =~= u32_le_bytes(length as u32) + pcm_bytes(t) + rb.subrange(
                HEADER_LEN + 2 * (i + 1),
                total as int,
            ));
        }
        i = i + 1;
    }
    proof {
        assert(samples@.take(samples@.len() as int) =~= samples@);
        lemma_pcm_bytes_len(samples@);
        assert(queue@.writing->0 =~= frame_bytes(pcm_bytes(samples@)));
    }
    let ghost filled = queue@.writing->0;
    match queue.commit(grant, total) {
        Ok(()) => {
            assert(filled.take(total as int) =~= filled);
            assert(queue@ == old(queue)@.appended(frame_bytes(pcm_bytes(samples@))));
            Ok(())
        },
        Err(_) => Err(Error::OutOfGrant),
    }
}

/// Reads the payload length in the header at the front of the open read
/// grant, without releasing anything. `None` unless `grant` is the queue's
/// open read grant and covers a whole header.
pub fn read_frame_header(queue: &ByteQueue, grant: &ReadGrant) -> (r: Option<usize>)
    requires
        queue.wf(),
    ensures
        r is Some <==> (queue@.reading == Some(grant@) && HEADER_LEN <= grant@),
        r matches Some(n) ==> n == header_of(queue@.bytes),
{
    proof {
        queue.lemma_bounds();
    }
    match queue.peek(grant, 0, HEADER_LEN) {
        Some(h) => {
            let n = decode_u32_le(h[0], h[1], h[2], h[3]);
            assert(queue@.bytes.take(4) =~= seq![h@[0], h@[1], h@[2], h@[3]]);
            Some(n as usize)
        },
        None => None,
    }
}

/// Copies the `length` payload bytes that follow the header in the open
/// read grant. `None` unless `grant` is the queue's open read grant and
/// covers the header and the whole payload.
pub fn read_frame_payload(queue: &ByteQueue, grant: &ReadGrant, length: usize) -> (r: Option<Vec<u8>>)
    requires
        queue.wf(),
    ensures
        r is Some <==> (queue@.reading == Some(grant@) && HEADER_LEN + length <= grant@),
        r matches Some(v) ==> v@ == queue@.bytes.subrange(HEADER_LEN as int, HEADER_LEN + length),
{
    if length > grant.len() || grant.len() - length < HEADER_LEN {
        return None;
    }
    queue.peek(grant, HEADER_LEN, HEADER_LEN + length)
}

/// Releases a whole frame of `length` payload bytes at the front of the
/// open read grant. Hands the grant back, changing nothing, unless it is
/// the queue's open read grant and covers the frame.
pub fn release_frame(queue: &mut ByteQueue, grant: ReadGrant, length: usize) -> (r: Result<(), ReadGrant>)
    requires
        old(queue).wf(),
    ensures
        final(queue).wf(),
        r is Ok <==> (old(queue)@.reading == Some(grant@) && HEADER_LEN + length <= grant@),
        r matches Err(g) ==> g@ == grant@ && final(queue)@ == old(queue)@,
        r is Ok ==> final(queue)@ == old(queue)@.released((HEADER_LEN + length) as nat),
{
    if length > grant.len() || grant.len() - length < HEADER_LEN {
        return Err(grant);
    }
    queue.release(grant, HEADER_LEN + length)
}

/// The bytes that committing the writes `ws`, in order, appends to a queue.
pub open spec fn concat(ws: Seq<Seq<u8>>) -> Seq<u8>
    decreases ws.len(),
{
    if ws.len() == 0 {
        Seq::empty()
    } else {
        concat(ws.drop_last()) + ws.last()
    }
}

/// Number of bytes committed by the first `i` writes of `ws`.
pub open spec fn written_before(ws: Seq<Seq<u8>>, i: int) -> nat {
    concat(ws.take(i)).len()
}

/// Writes come out in the order they went in, byte for byte: once the
/// bytes of the writes before the `i`-th have been released from the front
/// of a queue that held `start` and then received `ws`, the next bytes are
/// exactly the `i`-th write.
pub proof fn lemma_fifo(start: Seq<u8>, ws: Seq<Seq<u8>>, i: int)
    requires
        0 <= i < ws.len(),
    ensures
        (start + concat(ws)).skip(start.len() + written_before(ws, i) as int).take(ws[i].len() as int) == ws[i],
    decreases ws.len(),
{
    if i == ws.len() - 1 {
        assert(ws.take(i) =~= ws.drop_last());
        assert((start + concat(ws)).skip(start.len() + written_before(ws, i) as int) =~= ws[i]);
        assert(ws[i].take(ws[i].len() as int) =~= ws[i]);
    } else {
        let front = ws.drop_last();
        lemma_fifo(start, front, i);
        assert(front.take(i) =~= ws.take(i));
        let k: int = start.len() + written_before(ws, i) as int;
        lemma_concat_len_mono(front, i);
        assert((start + concat(ws)).skip(k).take(ws[i].len() as int)
            =~= (start + concat(front)).skip(k).take(ws[i].len() as int));
    }
}

/// The first `i` writes and the `i`-th one fit in what all the writes
/// committed.
proof fn lemma_concat_len_mono(ws: Seq<Seq<u8>>, i: int)
    requires
        0 <= i < ws.len(),
    ensures
        written_before(ws, i) + ws[i].len() <= concat(ws).len(),
    decreases ws.len(),
{
    if i == ws.len() - 1 {
        assert(ws.take(i) =~= ws.drop_last());
    } else {
        lemma_concat_len_mono(ws.drop_last(), i);
        assert(ws.drop_last().take(i) =~= ws.take(i));
    }
}

/// One step in the history of a queue's bytes: a commit that appends
/// bytes at the end (`QueueView::appended`, `QueueView::committed`), or a
/// release of bytes from the front (`QueueView::released`).
pub enum QueueStep {
    Append(Seq<u8>),
    Release(nat),
}

/// The queue's bytes after `steps`, starting from `start`.
pub open spec fn bytes_after(start: Seq<u8>, steps: Seq<QueueStep>) -> Seq<u8>
    decreases steps.len(),
{
    if steps.len() == 0 {
        start
    } else {
        let before = bytes_after(start, steps.drop_last());
        match steps.last() {
            QueueStep::Append(w) => before + w,
            QueueStep::Release(k) => before.skip(k as int),
        }
    }
}

/// Every release in `steps` takes no more than the bytes held at that point,
/// as `ByteQueue::release` enforces.
pub open spec fn releases_fit(start: Seq<u8>, steps: Seq<QueueStep>) -> bool
    decreases steps.len(),
{
    if steps.len() == 0 {
        true
    } else {
        &&& releases_fit(start, steps.drop_last())
        &&& steps.last() matches QueueStep::Release(k) ==> k <= bytes_after(start, steps.drop_last()).len()
    }
}

/// Everything appended by `steps`, in order.
pub open spec fn appended_by(steps: Seq<QueueStep>) -> Seq<u8>
    decreases steps.len(),
{
    if steps.len() == 0 {
        Seq::empty()
    } else {
        match steps.last() {
            QueueStep::Append(w) => appended_by(steps.drop_last()) + w,
            QueueStep::Release(_) => appended_by(steps.drop_last()),
        }
    }
}

/// Number of bytes released by `steps`.
pub open spec fn released_in(steps: Seq<QueueStep>) -> nat
    decreases steps.len(),
{
    if steps.len() == 0 {
        0
    } else {
        match steps.last() {
            QueueStep::Append(_) => released_in(steps.drop_last()),
            QueueStep::Release(k) => released_in(steps.drop_last()) + k,
        }
    }
}

/// Over any history of commits and releases, the queue holds exactly the
/// bytes written, in write order, from the first one not yet released: so
/// every read run, which starts at the front (`ByteQueue::run`), is a
/// stretch of the written bytes starting exactly at the release position,
/// with none lost, reordered or repeated.
pub proof fn lemma_fifo_history(start: Seq<u8>, steps: Seq<QueueStep>, m: nat)
    requires
        releases_fit(start, steps),
        m <= bytes_after(start, steps).len(),
    ensures
        released_in(steps) <= start.len() + appended_by(steps).len(),
        bytes_after(start, steps) == (start + appended_by(steps)).skip(released_in(steps) as int),
        bytes_after(start, steps).take(m as int) == (start + appended_by(steps)).subrange(
            released_in(steps) as int,
            (released_in(steps) + m) as int,
        ),
    decreases steps.len(),
{
    if steps.len() > 0 {
        let front = steps.drop_last();
        lemma_fifo_history(start, front, 0);
        let s = start + appended_by(front);
        match steps.last() {
            QueueStep::Append(w) => {
                assert((s + w).skip(released_in(front) as int) =~= s.skip(released_in(front) as int) + w);
                assert(start + appended_by(steps) =~= s + w);
            },
            QueueStep::Release(k) => {
                assert(s.skip(released_in(front) as int).skip(k as int) =~= s.skip((released_in(front) + k) as int));
            },
        }
    }
    let all = start + appended_by(steps);
    assert(bytes_after(start, steps).take(m as int) =~= all.subrange(released_in(steps) as int, (released_in(steps) + m) as int));
}

} // verus!
