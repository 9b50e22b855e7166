//! The decode stage: hands the raw MP3 bytes at the front of the ingest
//! queue to a decoder, writes the PCM samples of the frame it found as one
//! frame into the playback queue, and releases the bytes the decoder used
//! up. A frame the playback queue cannot take is dropped.
//!
//! The decoder itself is run by the caller on the bytes of the read grant
//! (`ByteQueue::run`); its answer comes back here as a `Decoded`.

use crate::bytes::{lemma_pcm_bytes_len, pcm_bytes};
use crate::frame::{frame_bytes, write_pcm_frame, HEADER_LEN, MAX_PAYLOAD};
use crate::ring::{ByteQueue, QueueView, ReadGrant};
use vstd::prelude::*;

verus! {

/// What the decoder made of the front of a byte run.
pub enum Decoded {
    /// An audio frame that ends `consumed` bytes into the run, with its
    /// interleaved samples.
    Audio { consumed: usize, samples: Vec<i16> },
    /// `consumed` bytes that hold no audio frame, to be skipped. The MP3
    /// decoder reports tags and garbage this way, and also a run that holds
    /// no whole frame, which it skips whole.
    Skipped { consumed: usize },
    /// The decoder found nothing to report, which it does only for an empty
    /// run; nothing is skipped.
    Incomplete,
}

/// The model of a `Decoded`.
pub enum DecodedView {
    Audio { consumed: nat, samples: Seq<i16> },
    Skipped { consumed: nat },
    Incomplete,
}

impl View for Decoded {
    type V = DecodedView;

    open spec fn view(&self) -> DecodedView {
        match self {
            Decoded::Audio { consumed, samples } => DecodedView::Audio { consumed: *consumed as nat, samples: samples@ },
            Decoded::Skipped { consumed } => DecodedView::Skipped { consumed: *consumed as nat },
            Decoded::Incomplete => DecodedView::Incomplete,
        }
    }
}

/// Number of input bytes that a decoder result accounts for.
pub open spec fn consumed_by(d: DecodedView) -> nat {
    match d {
        DecodedView::Audio { consumed, .. } => consumed,
        DecodedView::Skipped { consumed } => consumed,
        DecodedView::Incomplete => 0,
    }
}

/// What one pass of the decode stage did.
#[derive(Clone, Copy, Debug, PartialEq, Eq, Structural)]
pub enum DecodeOutcome {
    /// A frame was decoded and written to the playback queue.
    FrameReady { consumed: usize },
    /// A frame was decoded but the playback queue could not take it.
    FrameDropped { consumed: usize },
    /// Bytes without audio were skipped.
    Skipped { consumed: usize },
    /// The decoder reported nothing; nothing was released.
    NeedMore,
    /// The decoder claimed more bytes than the run holds; the claim was
    /// refused and nothing was released or written.
    Rejected { consumed: usize },
}

/// Number of ingest bytes that a pass released.
pub open spec fn released_by(o: DecodeOutcome) -> nat {
    match o {
        DecodeOutcome::FrameReady { consumed } => consumed as nat,
        DecodeOutcome::FrameDropped { consumed } => consumed as nat,
        DecodeOutcome::Skipped { consumed } => consumed as nat,
        _ => 0,
    }
}

/// The playback queue can take the frame of `samples`: their PCM bytes fit
/// in a frame and the queue would grant the frame's reservation.
pub open spec fn can_take(samples: Seq<i16>, before: QueueView) -> bool {
    &&& 2 * samples.len() <= MAX_PAYLOAD
    &&& before.can_reserve((HEADER_LEN + 2 * samples.len()) as nat)
}

/// The playback queue's side of handing decoder result `d` on: an audio
/// frame is appended as one frame of PCM bytes when the queue can take it,
/// and dropped, leaving the queue as it was, when it cannot; anything else
/// leaves the queue as it was.
pub open spec fn decode_effect(d: DecodedView, before: QueueView, after: QueueView, r: DecodeOutcome) -> bool {
    match d {
        DecodedView::Audio { consumed, samples } => if can_take(samples, before) {
            r == DecodeOutcome::FrameReady { consumed: consumed as usize } && after == before.appended(
                frame_bytes(pcm_bytes(samples)),
            )
        } else {
            r == DecodeOutcome::FrameDropped { consumed: consumed as usize } && after == before
        },
        DecodedView::Skipped { consumed } => r == DecodeOutcome::Skipped { consumed: consumed as usize } && after == before,
        DecodedView::Incomplete => r == DecodeOutcome::NeedMore && after == before,
    }
}

/// Hands a decoder result on to the playback queue: an audio frame's
/// samples are written as one frame of little-endian PCM bytes when the
/// playback queue can take them, and dropped when it cannot.
pub fn decode_queue(playback: &mut ByteQueue, decoded: &Decoded) -> (r: DecodeOutcome)
    requires
        old(playback).wf(),
    ensures
        final(playback).wf(),
        decode_effect(decoded@, old(playback)@, final(playback)@, r),
        released_by(r) == consumed_by(decoded@),
        decoded@ matches DecodedView::Audio { samples, .. } ==> pcm_bytes(samples).len() == 2 * samples.len(),
{
    proof {
        if let DecodedView::Audio { samples, .. } = decoded@ {
            lemma_pcm_bytes_len(samples);
        }
    }
    match decoded {
        Decoded::Audio { consumed, samples } => {
            match write_pcm_frame(playback, samples.as_slice()) {
                Ok(()) => DecodeOutcome::FrameReady { consumed: *consumed },
                Err(_) => DecodeOutcome::FrameDropped { consumed: *consumed },
            }
        },
        Decoded::Skipped { consumed } => DecodeOutcome::Skipped { consumed: *consumed },
        Decoded::Incomplete => DecodeOutcome::NeedMore,
    }
}

/// One pass of the decode task, given the open read grant of the ingest
/// queue and what the decoder made of its bytes. When the decoder's count
/// lies within the grant, the result goes on to the playback queue and
/// exactly the counted bytes are released (none when it reported nothing).
/// A larger count is refused: nothing is written or released, and the
/// grant is closed.
pub fn decode_task(ingest: &mut ByteQueue, grant: ReadGrant, playback: &mut ByteQueue, decoded: &Decoded) -> (r: DecodeOutcome)
    requires
        old(ingest).wf(),
        old(playback).wf(),
        old(ingest)@.reading == Some(grant@),
    ensures
        final(ingest).wf(),
        final(playback).wf(),
        consumed_by(decoded@) <= grant@ ==> {
            &&& decode_effect(decoded@, old(playback)@, final(playback)@, r)
            &&& released_by(r) == consumed_by(decoded@)
            &&& final(ingest)@ == old(ingest)@.released(consumed_by(decoded@))
        },
        consumed_by(decoded@) > grant@ ==> {
            &&& r == DecodeOutcome::Rejected { consumed: consumed_by(decoded@) as usize }
            &&& final(playback)@ == old(playback)@
            &&& final(ingest)@ == old(ingest)@.released(0)
        },
        decoded@ matches DecodedView::Audio { samples, .. } ==> pcm_bytes(samples).len() == 2 * samples.len(),
{
    proof {
        if let DecodedView::Audio { samples, .. } = decoded@ {
            lemma_pcm_bytes_len(samples);
        }
    }
    let used: usize = match decoded {
        Decoded::Audio { consumed, .. } => *consumed,
        Decoded::Skipped { consumed } => *consumed,
        Decoded::Incomplete => 0,
    };
    if used > grant.len() {
        let _ = ingest.release(grant, 0);
        return DecodeOutcome::Rejected { consumed: used };
    }
    let r = decode_queue(playback, decoded);
    let _ = ingest.release(grant, used);
    r
}

} // verus!
